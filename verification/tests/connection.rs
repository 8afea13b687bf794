use teec_protocol::{TEE_Parameters, TEE_Request};

use vsock_manager::bytes::ByteOrder;
use vsock_manager::connection::{
    Connection, ConnectionAction, ConnectionEnd, ConnectionEvent, ConnectionStep, Stage,
};
use vsock_manager::packet::{Forward, PacketError};

fn open(uuid: &str) -> Vec<u8> {
    postcard::to_stdvec(&TEE_Request::OpenSession {
        uuid: uuid.to_string(),
        connection_method: 0,
        params: TEE_Parameters::default(),
        ca_auth_info: None,
    })
    .unwrap()
}

fn close() -> Vec<u8> {
    postcard::to_stdvec(&TEE_Request::CloseSession { session_id: 1 }).unwrap()
}

fn header(len: u64) -> [u8; 16] {
    let mut header = [0u8; 16];
    header[8..].copy_from_slice(&len.to_le_bytes());
    header
}

fn receive(connection: &mut Connection, data: Vec<u8>) -> ConnectionStep {
    assert_eq!(connection.stage(), Stage::Header);
    let step = connection.step(ConnectionEvent::HeaderRead { header: header(data.len() as u64) });
    assert!(step.to_client.is_empty());
    assert!(matches!(step.action, ConnectionAction::ReadPayload { len } if len == data.len()));
    connection.step(ConnectionEvent::PayloadRead { data })
}

fn delivered(step: ConnectionStep) -> Forward {
    assert!(step.to_client.is_empty());
    match step.action {
        ConnectionAction::Deliver(forward) => forward,
        other => panic!("nothing to deliver: {other:?}"),
    }
}

fn answer(connection: &mut Connection, answer: &[u8]) -> Vec<u8> {
    let step = connection.step(ConnectionEvent::Delivered);
    assert!(matches!(step.action, ConnectionAction::ReadAnswer { len: 4 }));
    let len_bytes = (answer.len() as u32).to_le_bytes().to_vec();
    let step = connection.step(ConnectionEvent::AnswerRead { bytes: len_bytes });
    assert!(matches!(step.action, ConnectionAction::ReadAnswer { len } if len == answer.len()));
    let mut sent = step.to_client;
    let step = connection.step(ConnectionEvent::AnswerRead { bytes: answer.to_vec() });
    assert!(matches!(step.action, ConnectionAction::ReadHeader));
    sent.extend(step.to_client);
    sent
}

#[test]
fn requests_follow_the_last_session_of_the_connection() {
    let mut connection = Connection::new(ByteOrder::Little);
    for (data, socket) in [
        (open("a"), "/tmp/a.sock"),
        (close(), "/tmp/a.sock"),
        (open("b"), "/tmp/b.sock"),
        (close(), "/tmp/b.sock"),
        (close(), "/tmp/b.sock"),
    ] {
        let forward = delivered(receive(&mut connection, data.clone()));
        assert_eq!(forward.socket_path, socket);
        assert_eq!(forward.message[..4], (data.len() as u32).to_le_bytes());
        assert_eq!(forward.message[4..], data[..]);
        assert_eq!(answer(&mut connection, &[7, 8]), vec![2, 0, 0, 0, 7, 8]);
    }
    let step = connection.step(ConnectionEvent::HeaderMissing);
    assert!(matches!(step.action, ConnectionAction::End(ConnectionEnd::Closed)));
    assert_eq!(connection.stage(), Stage::Ended);
}

#[test]
fn answer_without_contents_is_its_length() {
    let mut connection = Connection::new(ByteOrder::Little);
    delivered(receive(&mut connection, open("a")));
    assert_eq!(answer(&mut connection, &[]), vec![0, 0, 0, 0]);
    assert_eq!(connection.stage(), Stage::Header);
}

#[test]
fn answer_that_is_cut_short_ends_the_connection() {
    let mut connection = Connection::new(ByteOrder::Little);
    delivered(receive(&mut connection, open("a")));
    connection.step(ConnectionEvent::Delivered);
    let step = connection.step(ConnectionEvent::Failed);
    assert!(step.to_client.is_empty());
    assert!(matches!(step.action, ConnectionAction::End(ConnectionEnd::Broken)));

    let mut connection = Connection::new(ByteOrder::Big);
    let step = connection.step(ConnectionEvent::HeaderRead {
        header: [0, 0, 0, 0, 0, 0, 0, 1, 0, 0, 0, 0, 0, 0, 0, open("a").len() as u8],
    });
    assert!(matches!(step.action, ConnectionAction::ReadPayload { .. }));
    delivered(connection.step(ConnectionEvent::PayloadRead { data: open("a") }));
    connection.step(ConnectionEvent::Delivered);
    let step = connection.step(ConnectionEvent::AnswerRead { bytes: vec![0, 0, 1, 0] });
    assert_eq!(step.to_client, vec![0, 0, 1, 0]);
    assert!(matches!(step.action, ConnectionAction::ReadAnswer { len: 256 }));
    let step = connection.step(ConnectionEvent::Failed);
    assert!(step.to_client.is_empty());
    assert!(matches!(step.action, ConnectionAction::End(ConnectionEnd::Broken)));
    assert_eq!(connection.stage(), Stage::Ended);
}

#[test]
fn first_bad_packet_ends_the_connection() {
    let mut connection = Connection::new(ByteOrder::Little);
    let step = connection.step(ConnectionEvent::HeaderRead { header: header(10 * 1024 * 1024 + 1) });
    assert!(matches!(
        step.action,
        ConnectionAction::End(ConnectionEnd::Refused(PacketError::TooLarge))
    ));
    assert_eq!(connection.stage(), Stage::Ended);

    let mut connection = Connection::new(ByteOrder::Little);
    let step = receive(&mut connection, vec![9]);
    assert!(matches!(
        step.action,
        ConnectionAction::End(ConnectionEnd::Refused(PacketError::Malformed(
            postcard::Error::SerdeDeCustom
        )))
    ));
    assert_eq!(connection.stage(), Stage::Ended);

    let mut connection = Connection::new(ByteOrder::Little);
    let step = receive(&mut connection, close());
    assert!(matches!(step.action, ConnectionAction::End(ConnectionEnd::NoSession)));
    assert_eq!(connection.stage(), Stage::Ended);
}
