//! One client connection: packets come in, messages go to TAs, and their answers
//! go back.

use vstd::prelude::*;

use crate::bytes::{u32_value, u64_value, ByteOrder};
use crate::packet::{
    decoded_request, framed, handle_any_packet, response_len, session_socket, text_of, Forward,
    PacketError, PacketHeader, MAX_PAYLOAD,
};

verus! {

/// What a connection waits for.
#[derive(Debug, Clone, Copy, PartialEq, Eq, Structural)]
pub enum Stage {
    /// The header of a packet.
    Header,
    /// The payload of a packet.
    Payload { len: usize },
    /// A message to be delivered to a TA.
    Delivery,
    /// The length of the answer of a TA.
    AnswerLength,
    /// The answer of a TA.
    Answer { len: usize },
    /// Nothing any more.
    Ended,
}

/// What happened on a connection.
#[derive(Debug)]
pub enum ConnectionEvent {
    /// A header was read.
    HeaderRead { header: [u8; 16] },
    /// No header came any more.
    HeaderMissing,
    /// A payload was read.
    PayloadRead { data: Vec<u8> },
    /// The message was delivered to the TA.
    Delivered,
    /// As many bytes as were asked for were read from the TA.
    AnswerRead { bytes: Vec<u8> },
    /// Reading or writing failed, on either side.
    Failed,
}

/// How a connection ended.
#[derive(Debug)]
pub enum ConnectionEnd {
    /// The client has no more to say.
    Closed,
    /// The client sent what is no packet.
    Refused(PacketError),
    /// The client sent a request that needs a session, and had none.
    NoSession,
    /// Reading or writing failed.
    Broken,
}

/// What to do next on a connection.
#[derive(Debug)]
pub enum ConnectionAction {
    /// Read a header from the client.
    ReadHeader,
    /// Read a payload of this length from the client.
    ReadPayload { len: usize },
    /// Deliver a message to a TA.
    Deliver(Forward),
    /// Read this many bytes from the TA.
    ReadAnswer { len: usize },
    /// Read nothing any more.
    End(ConnectionEnd),
}

/// What to send to the client, and what to do next.
#[derive(Debug)]
pub struct ConnectionStep {
    pub to_client: Vec<u8>,
    pub action: ConnectionAction,
}

/// A connection: the TA that it has its session with, and what it waits for.
#[derive(Debug)]
pub struct Connection {
    order: ByteOrder,
    session_uuid: Option<String>,
    stage: Stage,
}

/// The contents of a [`Connection`].
pub struct ConnectionView {
    pub order: ByteOrder,
    pub session: Option<Seq<char>>,
    pub stage: Stage,
}

impl View for Connection {
    type V = ConnectionView;

    closed spec fn view(&self) -> ConnectionView {
        ConnectionView {
            order: self.order,
            session: text_of(self.session_uuid),
            stage: self.stage,
        }
    }
}

/// The length of the payload that a header announces.
pub open spec fn announced_len(order: ByteOrder, header: Seq<u8>) -> usize {
    (u64_value(order, header.subrange(8, 16)) as u64) as usize
}

impl ConnectionView {
    /// A connection on which nothing was read yet: it has no session.
    pub open spec fn fresh(order: ByteOrder) -> ConnectionView {
        ConnectionView { order, session: None, stage: Stage::Header }
    }

    /// No payload is waited for that is too large.
    pub open spec fn wf(self) -> bool {
        self.stage matches Stage::Payload { len } ==> len <= MAX_PAYLOAD
    }

    /// The event is one that can come now: what was waited for, or a failure.
    pub open spec fn expects(self, event: ConnectionEvent) -> bool {
        match event {
            ConnectionEvent::HeaderRead { .. } => self.stage is Header,
            ConnectionEvent::HeaderMissing => self.stage is Header,
            ConnectionEvent::PayloadRead { data } => self.stage matches Stage::Payload { len }
                && data@.len() == len,
            ConnectionEvent::Delivered => self.stage is Delivery,
            ConnectionEvent::AnswerRead { bytes } => match self.stage {
                Stage::AnswerLength => bytes@.len() == 4,
                Stage::Answer { len } => bytes@.len() == len,
                _ => false,
            },
            ConnectionEvent::Failed => !(self.stage is Ended),
        }
    }

    /// The connection waiting for something else.
    pub open spec fn at(self, stage: Stage) -> ConnectionView {
        ConnectionView { stage, ..self }
    }

    /// The connection ends in this way, and nothing is sent.
    pub open spec fn ends(
        self,
        end: ConnectionEnd,
        step: ConnectionStep,
        after: ConnectionView,
    ) -> bool {
        &&& step.to_client@.len() == 0
        &&& step.action == ConnectionAction::End(end)
        &&& after == self.at(Stage::Ended)
    }

    /// The step is right after this event, and leaves the connection as in
    /// `after`.
    pub open spec fn steps(
        self,
        event: ConnectionEvent,
        step: ConnectionStep,
        after: ConnectionView,
    ) -> bool {
        match event {
            ConnectionEvent::HeaderMissing => self.ends(ConnectionEnd::Closed, step, after),
            ConnectionEvent::Failed => self.ends(ConnectionEnd::Broken, step, after),
            ConnectionEvent::HeaderRead { header } => {
                let len = announced_len(self.order, header@);
                if len <= MAX_PAYLOAD {
                    &&& step.to_client@.len() == 0
                    &&& step.action == (ConnectionAction::ReadPayload { len })
                    &&& after == self.at(Stage::Payload { len })
                } else {
                    self.ends(ConnectionEnd::Refused(PacketError::TooLarge), step, after)
                }
            },
            ConnectionEvent::PayloadRead { data } => match decoded_request(data@) {
                Err(e) => self.ends(
                    ConnectionEnd::Refused(PacketError::Malformed(e)),
                    step,
                    after,
                ),
                Ok(kind) => match kind.target(self.session) {
                    None => self.ends(ConnectionEnd::NoSession, step, after),
                    Some(uuid) => {
                        &&& step.to_client@.len() == 0
                        &&& step.action matches ConnectionAction::Deliver(forward)
                        &&& forward.socket_path@ == session_socket(uuid)
                        &&& forward.message@ == framed(self.order, data@)
                        &&& after == (ConnectionView {
                            session: Some(uuid),
                            ..self.at(Stage::Delivery)
                        })
                    },
                },
            },
            ConnectionEvent::Delivered => {
                &&& step.to_client@.len() == 0
                &&& step.action == (ConnectionAction::ReadAnswer { len: 4 })
                &&& after == self.at(Stage::AnswerLength)
            },
            ConnectionEvent::AnswerRead { bytes } => {
                let len = u32_value(self.order, bytes@) as usize;
                &&& step.to_client@ == bytes@
                &&& if self.stage is AnswerLength {
                    &&& step.action == (ConnectionAction::ReadAnswer { len })
                    &&& after == self.at(Stage::Answer { len })
                } else {
                    &&& step.action == ConnectionAction::ReadHeader
                    &&& after == self.at(Stage::Header)
                }
            },
        }
    }
}

/// What a client gets of the answer that a TA sent before it stopped: the
/// length and the answer, the length alone where the answer is cut short, and
/// nothing where the length itself is.
pub open spec fn relayed(order: ByteOrder, answer: Seq<u8>) -> Seq<u8> {
    if answer.len() < 4 {
        seq![]
    } else if !is_whole(order, answer) {
        answer.take(4)
    } else {
        answer.take(4 + u32_value(order, answer.take(4)))
    }
}

/// A TA sent its whole answer.
pub open spec fn is_whole(order: ByteOrder, answer: Seq<u8>) -> bool {
    answer.len() >= 4 && answer.len() - 4 >= u32_value(order, answer.take(4))
}

impl Connection {
    /// A connection on which nothing was read yet.
    pub fn new(order: ByteOrder) -> (connection: Connection)
        ensures
            connection@.wf(),
            connection@ == ConnectionView::fresh(order),
    {
        Connection { order, session_uuid: None, stage: Stage::Header }
    }

    /// What the connection waits for.
    pub fn stage(&self) -> (stage: Stage)
        ensures
            stage == self@.stage,
    {
        self.stage
    }

    /// Takes the connection one step further: what happened goes in, what to
    /// send and to do next comes out. It begins with the header of a packet.
    pub fn step(&mut self, event: ConnectionEvent) -> (step: ConnectionStep)
        requires
            old(self)@.wf(),
            old(self)@.expects(event),
        ensures
            final(self)@.wf(),
            old(self)@.steps(event, step, final(self)@),
    {
        let mut to_client: Vec<u8> = Vec::new();
        let mut stage: Stage = Stage::Ended;
        let action: ConnectionAction = match event {
            ConnectionEvent::HeaderMissing => ConnectionAction::End(ConnectionEnd::Closed),
            ConnectionEvent::Failed => ConnectionAction::End(ConnectionEnd::Broken),
            ConnectionEvent::HeaderRead { header } => {
                match PacketHeader::from_bytes(self.order, &header).payload_len() {
                    Ok(len) => {
                        stage = Stage::Payload { len };
                        ConnectionAction::ReadPayload { len }
                    },
                    Err(error) => ConnectionAction::End(ConnectionEnd::Refused(error)),
                }
            },
            ConnectionEvent::PayloadRead { data } => {
                match handle_any_packet(self.order, &data, &mut self.session_uuid) {
                    Ok(Some(forward)) => {
                        stage = Stage::Delivery;
                        ConnectionAction::Deliver(forward)
                    },
                    Ok(None) => ConnectionAction::End(ConnectionEnd::NoSession),
                    Err(error) => ConnectionAction::End(ConnectionEnd::Refused(error)),
                }
            },
            ConnectionEvent::Delivered => {
                stage = Stage::AnswerLength;
                ConnectionAction::ReadAnswer { len: 4 }
            },
            ConnectionEvent::AnswerRead { bytes } => {
                let action: ConnectionAction = if self.stage == Stage::AnswerLength {
                    let len_bytes: [u8; 4] = [bytes[0], bytes[1], bytes[2], bytes[3]];
                    assert(len_bytes@ =~= bytes@);
                    let len: usize = response_len(self.order, &len_bytes);
                    stage = Stage::Answer { len };
                    ConnectionAction::ReadAnswer { len }
                } else {
                    stage = Stage::Header;
                    ConnectionAction::ReadHeader
                };
                to_client = bytes;
                action
            },
        };
        self.stage = stage;
        ConnectionStep { to_client, action }
    }
}

} // verus!
