//! Packets on their way from a client to a TA and back.

use postcard::from_bytes;
use vstd::prelude::*;

use crate::bytes::{
    law_u32_read_back, read_u32, read_u64, u32_bytes, u32_value, u64_value, write_u32, ByteOrder,
};

verus! {

/// The length of a packet header.
pub const PACKET_HEADER_SIZE: usize = 16;

/// The largest payload that a packet may have.
pub const MAX_PAYLOAD: usize = 10485760;

/// What a packet starts with: the kind of its payload, and the length.
#[derive(Debug, Clone, Copy)]
pub struct PacketHeader {
    pub data_type: u64,
    pub data_size: u64,
}

/// Why a packet was not passed on: its payload is too large, or could not be
/// decoded.
#[derive(Debug, PartialEq, Eq)]
pub enum PacketError {
    TooLarge,
    Malformed(postcard::Error),
}

/// What a request asks for, as far as it matters on the way.
#[derive(Debug)]
pub enum RequestKind {
    OpenSession(String),
    CloseSession,
    InvokeCommand,
    RequestCancellation,
}

/// The contents of a [`RequestKind`].
pub enum KindView {
    OpenSession(Seq<char>),
    CloseSession,
    InvokeCommand,
    RequestCancellation,
}

impl View for RequestKind {
    type V = KindView;

    open spec fn view(&self) -> KindView {
        match self {
            RequestKind::OpenSession(uuid) => KindView::OpenSession(uuid@),
            RequestKind::CloseSession => KindView::CloseSession,
            RequestKind::InvokeCommand => KindView::InvokeCommand,
            RequestKind::RequestCancellation => KindView::RequestCancellation,
        }
    }
}

impl KindView {
    /// The uuid of the TA that the request goes to: the one that it opens a
    /// session with, else the one that the connection has its session with.
    pub open spec fn target(self, session: Option<Seq<char>>) -> Option<Seq<char>> {
        match self {
            KindView::OpenSession(uuid) => Some(uuid),
            _ => session,
        }
    }
}

impl RequestKind {
    /// Whether the request can only go somewhere on a connection that has a
    /// session.
    pub fn needs_session(&self) -> (needed: bool)
        ensures
            needed == (self@.target(None) is None),
    {
        match self {
            RequestKind::OpenSession(_) => false,
            RequestKind::CloseSession => true,
            RequestKind::InvokeCommand => true,
            RequestKind::RequestCancellation => true,
        }
    }
}

/// A message for a TA, and the socket that it goes to.
#[derive(Debug)]
pub struct Forward {
    pub socket_path: String,
    pub message: Vec<u8>,
}

/// An error of the `postcard` crate, as an opaque type.
#[verifier::external_type_specification]
#[verifier::external_body]
pub struct ExDecodeError(postcard::Error);

/// The request that a payload encodes, or the error that says why it encodes
/// none. Lengths in the payload are read as `usize`, so this is one function
/// for each width of that type.
pub uninterp spec fn decoded_request(data: Seq<u8>) -> Result<KindView, postcard::Error>;

/// `teec_protocol::MAX_MESSAGE_SIZE`: ten mebibytes.
#[verifier::external_body]
fn max_message_size() -> (size: usize)
    ensures
        size == MAX_PAYLOAD,
{
    teec_protocol::MAX_MESSAGE_SIZE
}

/// `postcard::from_bytes`, for a request of the `teec_protocol` crate: what
/// comes out depends on the payload alone. Which payloads encode which request
/// is left unsaid.
#[verifier::external_body]
fn decode_request(data: &Vec<u8>) -> (kind: Result<RequestKind, postcard::Error>)
    ensures
        decoded_request(data@) == match kind {
            Ok(k) => Ok(k@),
            Err(e) => Err(e),
        },
{
    from_bytes::<teec_protocol::TEE_Request>(data).map(
        |request| match request {
            teec_protocol::TEE_Request::OpenSession { uuid, .. } => RequestKind::OpenSession(uuid),
            teec_protocol::TEE_Request::CloseSession { .. } => RequestKind::CloseSession,
            teec_protocol::TEE_Request::InvokeCommand { .. } => RequestKind::InvokeCommand,
            teec_protocol::TEE_Request::RequestCancellation { .. } => RequestKind::RequestCancellation,
        },
    )
}

impl PacketHeader {
    /// Reads a header: two numbers of eight bytes each, in the byte order of
    /// the machine.
    pub fn from_bytes(order: ByteOrder, bytes: &[u8; 16]) -> (header: PacketHeader)
        ensures
            header.data_type == u64_value(order, bytes@.subrange(0, 8)),
            header.data_size == u64_value(order, bytes@.subrange(8, 16)),
    {
        let first: [u8; 8] = [
            bytes[0],
            bytes[1],
            bytes[2],
            bytes[3],
            bytes[4],
            bytes[5],
            bytes[6],
            bytes[7],
        ];
        let last: [u8; 8] = [
            bytes[8],
            bytes[9],
            bytes[10],
            bytes[11],
            bytes[12],
            bytes[13],
            bytes[14],
            bytes[15],
        ];
        assert(first@ =~= bytes@.subrange(0, 8));
        assert(last@ =~= bytes@.subrange(8, 16));
        PacketHeader { data_type: read_u64(order, &first), data_size: read_u64(order, &last) }
    }

    /// The length of the payload that follows, where it is not too large.
    pub fn payload_len(&self) -> (len: Result<usize, PacketError>)
        ensures
            len == if (self.data_size as usize) <= MAX_PAYLOAD {
                Ok::<usize, PacketError>(self.data_size as usize)
            } else {
                Err(PacketError::TooLarge)
            },
    {
        if self.data_size as usize > max_message_size() {
            return Err(PacketError::TooLarge);
        }
        Ok(self.data_size as usize)
    }
}

/// The text in an optional string.
pub open spec fn text_of(text: Option<String>) -> Option<Seq<char>> {
    match text {
        Some(t) => Some(t@),
        None => None,
    }
}

/// The socket on which a TA takes messages.
pub open spec fn session_socket(uuid: Seq<char>) -> Seq<char> {
    "/tmp/"@ + uuid + ".sock"@
}

/// A message as it goes to a TA: its length in four bytes, then the payload.
pub open spec fn framed(order: ByteOrder, data: Seq<u8>) -> Seq<u8> {
    u32_bytes(order, data.len() as u32) + data
}

/// Puts the length of a payload in front of it.
pub fn frame_message(order: ByteOrder, data: &Vec<u8>) -> (message: Vec<u8>)
    requires
        data@.len() <= u32::MAX,
    ensures
        message@ == framed(order, data@),
{
    let len: [u8; 4] = write_u32(order, data.len() as u32);
    let mut message: Vec<u8> = Vec::new();
    message.push(len[0]);
    message.push(len[1]);
    message.push(len[2]);
    message.push(len[3]);
    message.extend_from_slice(data.as_slice());
    assert(message@ =~= framed(order, data@));
    message
}

/// The length of the answer that follows these four bytes.
pub fn response_len(order: ByteOrder, len_bytes: &[u8; 4]) -> (len: usize)
    ensures
        len == u32_value(order, len_bytes@),
{
    read_u32(order, len_bytes) as usize
}

/// Where a request goes, and what is sent there. A request that opens a
/// session sets the session of the connection; any other needs one.
pub fn forward_request(
    order: ByteOrder,
    kind: RequestKind,
    data: &Vec<u8>,
    session_uuid: &mut Option<String>,
) -> (forward: Forward)
    requires
        kind@.target(text_of(*old(session_uuid))) is Some,
        data@.len() <= u32::MAX,
    ensures
        kind@.target(text_of(*old(session_uuid))) matches Some(uuid) && forward.socket_path@
            == session_socket(uuid) && text_of(*final(session_uuid)) == Some(uuid),
        forward.message@ == framed(order, data@),
{
    if let RequestKind::OpenSession(uuid) = kind {
        *session_uuid = Some(uuid);
    }
    let mut socket_path: String = "/tmp/".to_owned();
    if let Some(uuid) = session_uuid {
        socket_path.append(uuid.as_str());
    }
    socket_path.append(".sock");
    Forward { socket_path, message: frame_message(order, data) }
}

/// Takes the payload of a packet apart: which request it is, where that goes,
/// and what is sent there. A request that opens no session may only come on a
/// connection that has one.
pub fn handle_packet(order: ByteOrder, data: &Vec<u8>, session_uuid: &mut Option<String>) -> (
forward: Result<Forward, PacketError>)
    requires
        decoded_request(data@) matches Ok(kind) ==> kind.target(
            text_of(*old(session_uuid)),
        ) is Some,
        data@.len() <= u32::MAX,
    ensures
        match decoded_request(data@) {
            Err(e) => forward == Err::<Forward, PacketError>(PacketError::Malformed(e))
                && *final(session_uuid) == *old(session_uuid),
            Ok(kind) => kind.target(text_of(*old(session_uuid))) matches Some(uuid)
                && forward matches Ok(f) && f.socket_path@ == session_socket(uuid) && f.message@
                == framed(order, data@) && text_of(*final(session_uuid)) == Some(uuid),
        },
{
    match decode_request(data) {
        Ok(kind) => Ok(forward_request(order, kind, data, session_uuid)),
        Err(e) => Err(PacketError::Malformed(e)),
    }
}

/// [`handle_packet`] for a payload that may hold any request: `None`, with
/// nothing changed, where it needs a session and the connection has none.
pub fn handle_any_packet(order: ByteOrder, data: &Vec<u8>, session_uuid: &mut Option<String>) -> (
forward: Result<Option<Forward>, PacketError>)
    requires
        data@.len() <= u32::MAX,
    ensures
        match decoded_request(data@) {
            Err(e) => forward == Err::<Option<Forward>, PacketError>(PacketError::Malformed(e))
                && *final(session_uuid) == *old(session_uuid),
            Ok(kind) => match kind.target(text_of(*old(session_uuid))) {
                None => forward == Ok::<Option<Forward>, PacketError>(None)
                    && *final(session_uuid) == *old(session_uuid),
                Some(uuid) => forward matches Ok(Some(f)) && f.socket_path@ == session_socket(uuid)
                    && f.message@ == framed(order, data@) && text_of(*final(session_uuid)) == Some(
                    uuid,
                ),
            },
        },
{
    if session_uuid.is_none() {
        match decode_request(data) {
            Ok(kind) => if kind.needs_session() {
                return Ok(None);
            },
            Err(e) => return Err(PacketError::Malformed(e)),
        }
    }
    match handle_packet(order, data, session_uuid) {
        Ok(forward) => Ok(Some(forward)),
        Err(error) => Err(error),
    }
}

/// A TA that reads the length in front of a message finds that of the payload.
pub proof fn law_frame_tells_length(order: ByteOrder, data: Seq<u8>)
    requires
        data.len() <= u32::MAX,
    ensures
        u32_value(order, framed(order, data).take(4)) == data.len(),
        framed(order, data).skip(4) == data,
{
    law_u32_read_back(order, data.len() as u32);
    assert(framed(order, data).take(4) =~= u32_bytes(order, data.len() as u32));
    assert(framed(order, data).skip(4) =~= data);
}

} // verus!
