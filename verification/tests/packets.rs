use teec_protocol::{TEE_Parameters, TEE_Request};

use vsock_manager::bytes::ByteOrder;
use vsock_manager::packet::{
    forward_request, frame_message, handle_any_packet, handle_packet, response_len, PacketError,
    PacketHeader, RequestKind, MAX_PAYLOAD, PACKET_HEADER_SIZE,
};

fn encode(request: &TEE_Request) -> Vec<u8> {
    postcard::to_stdvec(request).unwrap()
}

fn open(uuid: &str) -> Vec<u8> {
    encode(&TEE_Request::OpenSession {
        uuid: uuid.to_string(),
        connection_method: 0,
        params: TEE_Parameters::default(),
        ca_auth_info: None,
    })
}

#[test]
fn header_is_read_as_the_protocol_writes_it() {
    assert_eq!(PACKET_HEADER_SIZE, teec_protocol::PacketHeader::SIZE);
    let written = teec_protocol::PacketHeader {
        data_type: 0x1234_5678_9abc_def0,
        data_size: 0xfedc_ba98_7654_3210,
    };
    let mut bytes = [0u8; 16];
    bytes.copy_from_slice(written.as_bytes());
    let order = if 1u16.to_ne_bytes() == [1, 0] {
        ByteOrder::Little
    } else {
        ByteOrder::Big
    };
    let header = PacketHeader::from_bytes(order, &bytes);
    assert_eq!(header.data_type, written.data_type);
    assert_eq!(header.data_size, written.data_size);

    let mut bytes = [0u8; 16];
    bytes[7] = 3;
    bytes[14] = 1;
    let header = PacketHeader::from_bytes(ByteOrder::Big, &bytes);
    assert_eq!((header.data_type, header.data_size), (3, 256));
}

#[test]
fn payload_is_limited() {
    assert_eq!(MAX_PAYLOAD, teec_protocol::MAX_MESSAGE_SIZE);
    let len = |data_size: u64| PacketHeader { data_type: 1, data_size }.payload_len();
    assert_eq!(len(0), Ok(0));
    assert_eq!(len(10 * 1024 * 1024), Ok(10 * 1024 * 1024));
    assert_eq!(len(10 * 1024 * 1024 + 1), Err(PacketError::TooLarge));
    assert_eq!(len(u32::MAX as u64), Err(PacketError::TooLarge));
}

#[test]
fn open_request_sets_the_session_and_later_ones_follow_it() {
    let mut session = None;
    let data = open("8aaaf200-2450-11e4-abe2-0002a5d5c51b");
    let forward = handle_packet(ByteOrder::Little, &data, &mut session).unwrap();
    assert_eq!(forward.socket_path, "/tmp/8aaaf200-2450-11e4-abe2-0002a5d5c51b.sock");
    assert_eq!(forward.message[..4], (data.len() as u32).to_le_bytes());
    assert_eq!(forward.message[4..], data[..]);
    assert_eq!(session.as_deref(), Some("8aaaf200-2450-11e4-abe2-0002a5d5c51b"));

    for request in [
        TEE_Request::InvokeCommand {
            session_id: 1,
            cmd_id: 2,
            params: TEE_Parameters::default(),
        },
        TEE_Request::RequestCancellation { session_id: 1 },
        TEE_Request::CloseSession { session_id: 1 },
    ] {
        let data = encode(&request);
        let forward = handle_packet(ByteOrder::Big, &data, &mut session).unwrap();
        assert_eq!(forward.socket_path, "/tmp/8aaaf200-2450-11e4-abe2-0002a5d5c51b.sock");
        assert_eq!(forward.message[..4], (data.len() as u32).to_be_bytes());
        assert_eq!(forward.message[4..], data[..]);
    }

    let forward = handle_packet(ByteOrder::Little, &open("v"), &mut session).unwrap();
    assert_eq!(forward.socket_path, "/tmp/v.sock");
    assert_eq!(session.as_deref(), Some("v"));
}

#[test]
fn request_without_a_session_goes_nowhere() {
    let mut session = None;
    let data = encode(&TEE_Request::CloseSession { session_id: 1 });
    assert!(handle_any_packet(ByteOrder::Little, &data, &mut session).unwrap().is_none());
    assert_eq!(session, None);

    let forward = handle_any_packet(ByteOrder::Little, &open("u"), &mut session);
    assert_eq!(forward.unwrap().unwrap().socket_path, "/tmp/u.sock");
    let forward = handle_any_packet(ByteOrder::Little, &data, &mut session).unwrap().unwrap();
    assert_eq!(forward.socket_path, "/tmp/u.sock");
    assert_eq!(forward.message[4..], data[..]);
}

#[test]
fn garbage_is_refused_and_keeps_the_session() {
    let mut session = Some("u".to_string());
    for (data, error) in [
        (vec![], postcard::Error::DeserializeUnexpectedEnd),
        (vec![9], postcard::Error::SerdeDeCustom),
        (vec![0, 200], postcard::Error::DeserializeUnexpectedEnd),
        (vec![0, 1, 0xff], postcard::Error::DeserializeBadUtf8),
    ] {
        assert_eq!(postcard::from_bytes::<TEE_Request>(&data).err(), Some(error.clone()));
        assert_eq!(
            handle_packet(ByteOrder::Little, &data, &mut session).unwrap_err(),
            PacketError::Malformed(error.clone())
        );
        assert_eq!(
            handle_any_packet(ByteOrder::Little, &data, &mut session).unwrap_err(),
            PacketError::Malformed(error.clone())
        );
    }
    assert_eq!(session.as_deref(), Some("u"));
}

#[test]
fn request_is_forwarded_by_its_kind() {
    let mut session = Some("old".to_string());
    let data = vec![1, 2, 3];
    for kind in [
        RequestKind::CloseSession,
        RequestKind::InvokeCommand,
        RequestKind::RequestCancellation,
    ] {
        assert!(kind.needs_session());
        let forward = forward_request(ByteOrder::Big, kind, &data, &mut session);
        assert_eq!(forward.socket_path, "/tmp/old.sock");
        assert_eq!(forward.message, vec![0, 0, 0, 3, 1, 2, 3]);
    }
    let kind = RequestKind::OpenSession("new".to_string());
    assert!(!kind.needs_session());
    let forward = forward_request(ByteOrder::Little, kind, &data, &mut session);
    assert_eq!(forward.socket_path, "/tmp/new.sock");
    assert_eq!(forward.message, vec![3, 0, 0, 0, 1, 2, 3]);
    assert_eq!(session.as_deref(), Some("new"));
}

#[test]
fn frame_tells_the_length() {
    for order in [ByteOrder::Little, ByteOrder::Big] {
        let data = vec![7u8; 70000];
        let message = frame_message(order, &data);
        let mut len = [0u8; 4];
        len.copy_from_slice(&message[..4]);
        assert_eq!(response_len(order, &len), 70000);
        assert_eq!(message[4..], data[..]);
    }
    assert_eq!(response_len(ByteOrder::Big, &[0, 0, 1, 2]), 258);
}
