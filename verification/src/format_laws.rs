//! What texts, numbers, paths and packets look like.

use vstd::prelude::*;

use crate::bytes::{u32_bytes, u32_value, u64_bytes, u64_value, ByteOrder};
use crate::connection::{
    is_whole, relayed, ConnectionAction, ConnectionEnd, ConnectionEvent, ConnectionStep,
    ConnectionView, Stage,
};
use crate::instance::instance_socket;
use crate::locate::{candidates, first_file};
use crate::packet::{decoded_request, framed, session_socket, KindView, PacketError};
use crate::protocol::TEE_ParamType;
use crate::psk::{base_key_text, is_accepted, message_at, window_at};
use crate::text::{decimal, digits_value, is_u64_text, joined, unsigned_digits};

verus! {

/// The executable of a TA is the first of the places that is a file: that one
/// is, and none before it is. There is none exactly where no place is.
pub proof fn law_first_file_is_the_first(is_file: Seq<bool>)
    requires
        is_file.len() == 3,
    ensures
        first_file(is_file) matches Some(i) ==> 0 <= i < is_file.len() && is_file[i] && forall|
            k: int,
        |
            0 <= k < i ==> !(#[trigger] is_file[k]),
        first_file(is_file) is None <==> forall|k: int|
            0 <= k < is_file.len() ==> !(#[trigger] is_file[k]),
{
    if first_file(is_file) is Some {
        let i = first_file(is_file).unwrap();
        assert(is_file[i]);
    } else {
        assert(!is_file[0] && !is_file[1] && !is_file[2]);
    }
}

/// One more file behind the first changes nothing; one in front of it is taken
/// in its place.
pub proof fn law_only_the_first_file_counts(is_file: Seq<bool>, added: int)
    requires
        is_file.len() == 3,
        0 <= added < 3,
    ensures
        first_file(is_file.update(added, true)) == match first_file(is_file) {
            Some(i) => if added < i {
                Some(added)
            } else {
                Some(i)
            },
            None => Some(added),
        },
{
    law_first_file_is_the_first(is_file);
    law_first_file_is_the_first(is_file.update(added, true));
}

/// In a directory, whether its path ends in a slash or not, the three places
/// are the uuid, the uuid with the ending, and the uuid in a directory of that
/// name.
pub proof fn law_places_of_an_executable(root: Seq<char>, uuid: Seq<char>)
    requires
        root.len() > 0,
        uuid.len() > 0,
        uuid[0] != '/',
        uuid.last() != '/',
    ensures
        ({
            let dir = if root.last() == '/' {
                root
            } else {
                root + seq!['/']
            };
            &&& candidates(root, uuid).len() == 3
            &&& candidates(root, uuid)[0] == dir + uuid
            &&& candidates(root, uuid)[1] == dir + uuid + ".ta"@
            &&& candidates(root, uuid)[2] == dir + uuid + seq!['/'] + uuid
        }),
{
    reveal_strlit(".ta");
    let dir = if root.last() == '/' {
        root
    } else {
        root + seq!['/']
    };
    assert(candidates(root, uuid)[0] =~= dir + uuid);
    assert(candidates(root, uuid)[1] =~= dir + uuid + ".ta"@);
    assert((dir + uuid).last() == uuid.last());
    assert(candidates(root, uuid)[2] =~= dir + uuid + seq!['/'] + uuid);
}

/// Whatever the uuid is, the first place is where it is found in the directory,
/// the second where it is found with the ending, and the third where it is
/// found in the first.
pub proof fn law_places_are_looked_up(root: Seq<char>, uuid: Seq<char>)
    ensures
        candidates(root, uuid).len() == 3,
        candidates(root, uuid)[0] == joined(root, uuid),
        candidates(root, uuid)[1] == joined(root, uuid + ".ta"@),
        candidates(root, uuid)[2] == joined(candidates(root, uuid)[0], uuid),
{
}

/// A name that starts with a slash stands for itself. Any other comes behind
/// the directory, with exactly one slash more where the directory is not empty
/// and does not end in one.
pub proof fn law_path_is_directory_then_name(base: Seq<char>, name: Seq<char>)
    ensures
        name.len() > 0 && name[0] == '/' ==> joined(base, name) == name,
        !(name.len() > 0 && name[0] == '/') ==> {
            let slash = if base.len() > 0 && base.last() != '/' {
                1int
            } else {
                0int
            };
            &&& joined(base, name).len() == base.len() + slash + name.len()
            &&& joined(base, name).take(base.len() as int) == base
            &&& joined(base, name).skip(base.len() + slash) == name
            &&& slash == 1 ==> joined(base, name)[base.len() as int] == '/'
        },
{
    if !(name.len() > 0 && name[0] == '/') {
        let path = joined(base, name);
        assert(path.take(base.len() as int) =~= base);
        if base.len() > 0 && base.last() != '/' {
            assert(path.skip(base.len() as int + 1) =~= name);
        } else {
            assert(path.skip(base.len() as int) =~= name);
        }
    }
}

/// A digit behind a number makes it ten times as large, and the digit more.
pub proof fn law_digits_count_in_tens(digits: Seq<char>, c: char)
    requires
        '0' <= c,
        c <= '9',
    ensures
        digits_value(digits.push(c)) == 10 * digits_value(digits) + (c as int - '0' as int),
        digits_value(seq![]) == 0,
{
    assert(digits.push(c).drop_last() =~= digits);
}

/// A number in decimal is its last digit behind the number without it, and a
/// digit alone where it is below ten.
pub proof fn law_decimal_counts_in_tens(n: nat)
    ensures
        n >= 10 ==> decimal(n).drop_last() == decimal(n / 10),
        decimal(n).len() > 0,
        decimal(n).last() as int == '0' as int + n % 10,
        n < 10 ==> decimal(n).len() == 1,
{
    if n >= 10 {
        assert(decimal(n).drop_last() =~= decimal(n / 10));
    }
}

/// A text is a number exactly where it is digits, at least one and nothing
/// else, of a value that fits, with one plus sign in front or none. The plus
/// sign does not change the value.
pub proof fn law_number_texts(text: Seq<char>)
    requires
        text.len() > 0 ==> text[0] != '+',
    ensures
        is_u64_text(text) <==> {
            &&& text.len() > 0
            &&& forall|i: int| 0 <= i < text.len() ==> '0' <= #[trigger] text[i] && text[i] <= '9'
            &&& digits_value(text) <= 0xffff_ffff_ffff_ffff
        },
        is_u64_text(seq!['+'] + text) == is_u64_text(text),
        unsigned_digits(text) == text,
        unsigned_digits(seq!['+'] + text) == text,
{
    assert((seq!['+'] + text).skip(1) =~= text);
    if is_u64_text(text) {
        assert forall|i: int| 0 <= i < text.len() implies '0' <= #[trigger] text[i] && text[i]
            <= '9' by {
            assert(crate::text::is_digit(unsigned_digits(text)[i]));
        }
    }
}

/// Eight bytes are read as the number that was laid out in them.
pub proof fn law_u64_read_back(order: ByteOrder, n: u64)
    ensures
        u64_value(order, u64_bytes(order, n)) == n,
        u64_bytes(order, n).len() == 8,
{
    let low = (n % 0x1_0000_0000) as u32;
    let high = (n / 0x1_0000_0000) as u32;
    let bytes = u64_bytes(order, n);
    lemma_halves(n);
    crate::bytes::law_u32_read_back(order, low);
    crate::bytes::law_u32_read_back(order, high);
    match order {
        ByteOrder::Little => {
            assert(bytes.subrange(0, 4) =~= u32_bytes(order, low));
            assert(bytes.subrange(4, 8) =~= u32_bytes(order, high));
        },
        ByteOrder::Big => {
            assert(bytes.subrange(4, 8) =~= u32_bytes(order, low));
            assert(bytes.subrange(0, 4) =~= u32_bytes(order, high));
        },
    }
}

/// A byte of the lower half is one of the whole number, and a byte of the upper
/// half one of the whole number further up.
proof fn lemma_byte_of_half(n: u64)
    ensures
        (n % 0x1_0000_0000) % 256 == n % 256,
        (n % 0x1_0000_0000) / 0x100 % 256 == n / 0x100 % 256,
        (n % 0x1_0000_0000) / 0x1_0000 % 256 == n / 0x1_0000 % 256,
        (n % 0x1_0000_0000) / 0x100_0000 % 256 == n / 0x100_0000 % 256,
        (n / 0x1_0000_0000) / 0x100 % 256 == n / 0x100_0000_0000 % 256,
        (n / 0x1_0000_0000) / 0x1_0000 % 256 == n / 0x1_0000_0000_0000 % 256,
        (n / 0x1_0000_0000) / 0x100_0000 % 256 == n / 0x100_0000_0000_0000 % 256,
{
    assert((n % 0x1_0000_0000) % 256 == n % 256) by (bit_vector);
    assert((n % 0x1_0000_0000) / 0x100 % 256 == n / 0x100 % 256) by (bit_vector);
    assert((n % 0x1_0000_0000) / 0x1_0000 % 256 == n / 0x1_0000 % 256) by (bit_vector);
    assert((n % 0x1_0000_0000) / 0x100_0000 % 256 == n / 0x100_0000 % 256) by (bit_vector);
    assert((n / 0x1_0000_0000) / 0x100 % 256 == n / 0x100_0000_0000 % 256) by (bit_vector);
    assert((n / 0x1_0000_0000) / 0x1_0000 % 256 == n / 0x1_0000_0000_0000 % 256) by (bit_vector);
    assert((n / 0x1_0000_0000) / 0x100_0000 % 256 == n / 0x100_0000_0000_0000 % 256)
        by (bit_vector);
}

/// The bytes of a long number are those of its two halves.
proof fn lemma_halves(n: u64)
    ensures
        crate::bytes::u64_little(n) == crate::bytes::u32_little((n % 0x1_0000_0000) as u32)
            + crate::bytes::u32_little((n / 0x1_0000_0000) as u32),
{
    let low = (n % 0x1_0000_0000) as u32;
    let high = (n / 0x1_0000_0000) as u32;
    lemma_byte_of_half(n);
    let whole = crate::bytes::u64_little(n);
    let halves = crate::bytes::u32_little(low) + crate::bytes::u32_little(high);
    assert(whole[0] == halves[0] && whole[1] == halves[1]);
    assert(whole[2] == halves[2] && whole[3] == halves[3]);
    assert(whole[4] == halves[4] && whole[5] == halves[5]);
    assert(whole[6] == halves[6] && whole[7] == halves[7]);
    assert(whole =~= halves);
}

/// Least significant first, a number below 256 is its first byte, and all
/// others are zero. The other order is the same bytes backwards.
pub proof fn law_byte_orders(n: u32)
    ensures
        u32_bytes(ByteOrder::Little, n).len() == 4,
        u32_bytes(ByteOrder::Little, n)[0] == n % 256,
        n < 256 ==> u32_bytes(ByteOrder::Little, n) == seq![n as u8, 0u8, 0u8, 0u8],
        u32_bytes(ByteOrder::Big, n) == u32_bytes(ByteOrder::Little, n).reverse(),
        u64_bytes(ByteOrder::Little, n as u64)[0] == n % 256,
        u64_bytes(ByteOrder::Big, n as u64)[7] == n % 256,
{
    if n < 256 {
        assert(u32_bytes(ByteOrder::Little, n) =~= seq![n as u8, 0u8, 0u8, 0u8]);
    }
}

/// The first window begins with Unix time, and each lasts three hundred
/// seconds. A clock from before that time is in the first.
pub proof fn law_windows_last_three_hundred_seconds(secs: u64)
    ensures
        300 * window_at(Some(secs)) <= secs < 300 * window_at(Some(secs)) + 300,
        window_at(None) == 0,
{
}

/// What is signed for a moment is eight bytes, most significant first, that
/// hold the number of its window.
pub proof fn law_message_holds_the_window(unix_secs: Option<u64>)
    ensures
        message_at(unix_secs).len() == 8,
        u64_value(ByteOrder::Big, message_at(unix_secs)) == window_at(unix_secs),
{
    law_u64_read_back(ByteOrder::Big, window_at(unix_secs));
}

/// The text that the base key is made from.
pub proof fn law_base_key_text()
    ensures
        base_key_text() == "www.kylinos.cnrust-libteeclibcc_teec"@,
{
    reveal_strlit("www.kylinos.cn");
    reveal_strlit("rust-libteec");
    reveal_strlit("libcc_teec");
    reveal_strlit("www.kylinos.cnrust-libteeclibcc_teec");
    assert(base_key_text() =~= "www.kylinos.cnrust-libteeclibcc_teec"@);
}

/// Accepted are the key of the same window, of the one before and of the one
/// after, and no other. Acceptance is mutual.
pub proof fn law_neighbours_are_accepted(own: u64, other: u64)
    ensures
        is_accepted(own, other) <==> own == other || own == other + 1 || other == own + 1,
        is_accepted(own, other) == is_accepted(other, own),
{
}

/// The numbers of the parameter types.
pub proof fn law_numbers_of_param_types()
    ensures
        TEE_ParamType::NoParam.spec_code() == 0,
        TEE_ParamType::ValueInput.spec_code() == 1,
        TEE_ParamType::ValueOutput.spec_code() == 2,
        TEE_ParamType::ValueInout.spec_code() == 3,
        TEE_ParamType::MemrefInput.spec_code() == 5,
        TEE_ParamType::MemrefOutput.spec_code() == 6,
        TEE_ParamType::MemrefInout.spec_code() == 7,
{
}

/// A request that opens a session goes to the TA that it names, whatever
/// session there is. All others go to the TA of the session, and nowhere where
/// there is none.
pub proof fn law_requests_know_where_to_go(uuid: Seq<char>, session: Option<Seq<char>>)
    ensures
        KindView::OpenSession(uuid).target(session) == Some(uuid),
        KindView::CloseSession.target(session) == session,
        KindView::InvokeCommand.target(session) == session,
        KindView::RequestCancellation.target(session) == session,
{
}

/// The socket of a TA and those of its instances lie in the same directory and
/// have the same ending; between stands the uuid, and for an instance a dot and
/// its number.
pub proof fn law_names_of_sockets(uuid: Seq<char>, id: u32)
    ensures
        session_socket(uuid).len() == 10 + uuid.len(),
        session_socket(uuid).take(5) == "/tmp/"@,
        session_socket(uuid).subrange(5, 5 + uuid.len() as int) == uuid,
        session_socket(uuid).skip(5 + uuid.len() as int) == ".sock"@,
        instance_socket(uuid, id) == session_socket(uuid + seq!['.'] + decimal(id as nat)),
{
    reveal_strlit("/tmp/");
    reveal_strlit(".");
    reveal_strlit(".sock");
    assert(session_socket(uuid).take(5) =~= "/tmp/"@);
    assert(session_socket(uuid).subrange(5, 5 + uuid.len() as int) =~= uuid);
    assert(session_socket(uuid).skip(5 + uuid.len() as int) =~= ".sock"@);
    assert(instance_socket(uuid, id) =~= session_socket(
        uuid + seq!['.'] + decimal(id as nat),
    ));
}

/// A message is four bytes longer than its payload: they hold the length of the
/// payload, which follows unaltered.
pub proof fn law_message_is_length_then_payload(order: ByteOrder, data: Seq<u8>)
    requires
        data.len() <= u32::MAX,
    ensures
        framed(order, data).len() == 4 + data.len(),
        framed(order, data).take(4) == u32_bytes(order, data.len() as u32),
        framed(order, data).skip(4) == data,
{
    assert(framed(order, data).take(4) =~= u32_bytes(order, data.len() as u32));
    assert(framed(order, data).skip(4) =~= data);
}

/// A header that announces up to ten mebibytes has that payload read; one that
/// announces more, as far as a machine can count, is refused.
pub proof fn law_payload_limit(
    c: ConnectionView,
    header: [u8; 16],
    step: ConnectionStep,
    after: ConnectionView,
)
    requires
        c.steps(ConnectionEvent::HeaderRead { header }, step, after),
    ensures
        ({
            let size = u64_value(c.order, header@.subrange(8, 16));
            &&& step.to_client@.len() == 0
            &&& after.session == c.session
            &&& after.order == c.order
            &&& 0 <= size <= 10 * 1024 * 1024 ==> step.action == (ConnectionAction::ReadPayload {
                len: size as usize,
            }) && after.stage == (Stage::Payload { len: size as usize })
            &&& 10 * 1024 * 1024 < size <= u32::MAX ==> step.action == ConnectionAction::End(
                ConnectionEnd::Refused(PacketError::TooLarge),
            ) && after.stage == Stage::Ended
        }),
{
}

/// A client that has no more to say, and a failure, end a connection, and
/// nothing is sent.
pub proof fn law_ends_of_a_connection(
    c: ConnectionView,
    event: ConnectionEvent,
    step: ConnectionStep,
    after: ConnectionView,
)
    requires
        c.steps(event, step, after),
        event is HeaderMissing || event is Failed,
    ensures
        step.to_client@.len() == 0,
        after.stage == Stage::Ended,
        event is HeaderMissing ==> step.action == ConnectionAction::End(ConnectionEnd::Closed),
        event is Failed ==> step.action == ConnectionAction::End(ConnectionEnd::Broken),
{
}

/// After a message was delivered, four bytes of the answer are read, then as
/// many as they tell, and then the next header. What is read of an answer is
/// sent on at once, and nothing else is ever sent. The session stays.
pub proof fn law_answer_is_read_and_sent_on(
    c: ConnectionView,
    event: ConnectionEvent,
    step: ConnectionStep,
    after: ConnectionView,
)
    requires
        c.steps(event, step, after),
        event is Delivered || event is AnswerRead,
        c.expects(event),
    ensures
        after.session == c.session,
        after.order == c.order,
        event is Delivered ==> step.to_client@.len() == 0 && step.action == (
        ConnectionAction::ReadAnswer { len: 4 }) && after.stage == Stage::AnswerLength,
        event matches ConnectionEvent::AnswerRead { bytes } ==> {
            &&& step.to_client@ == bytes@
            &&& c.stage == Stage::AnswerLength ==> step.action == (ConnectionAction::ReadAnswer {
                len: u32_value(c.order, bytes@) as usize,
            }) && after.stage == (Stage::Answer { len: u32_value(c.order, bytes@) as usize })
            &&& c.stage != Stage::AnswerLength ==> step.action == ConnectionAction::ReadHeader
                && after.stage == Stage::Header
        },
{
}

/// Of what a TA sent, the client gets a beginning: all of it up to the length
/// that it told, where it is all there; else the length, or nothing.
pub proof fn law_client_gets_a_beginning(order: ByteOrder, answer: Seq<u8>)
    ensures
        relayed(order, answer).len() <= answer.len(),
        relayed(order, answer) == answer.take(relayed(order, answer).len() as int),
        answer.len() < 4 ==> relayed(order, answer).len() == 0 && !is_whole(order, answer),
        answer.len() >= 4 && answer.len() < 4 + u32_value(order, answer.take(4)) ==> relayed(
            order,
            answer,
        ).len() == 4 && !is_whole(order, answer),
        answer.len() >= 4 && answer.len() >= 4 + u32_value(order, answer.take(4)) ==> relayed(
            order,
            answer,
        ).len() == 4 + u32_value(order, answer.take(4)) && is_whole(order, answer),
{
    assert(relayed(order, answer) =~= answer.take(relayed(order, answer).len() as int));
}

/// A fresh connection has no session and waits for a header.
pub proof fn law_fresh_connection(order: ByteOrder)
    ensures
        ConnectionView::fresh(order).session is None,
        ConnectionView::fresh(order).stage == Stage::Header,
        ConnectionView::fresh(order).order == order,
        ConnectionView::fresh(order).wf(),
{
}

/// What can happen on a connection that has not ended is what it waits for, or
/// a failure.
pub proof fn law_expected_events(c: ConnectionView, header: [u8; 16], bytes: Vec<u8>)
    ensures
        c.stage != Stage::Ended ==> c.expects(ConnectionEvent::Failed),
        c.stage == Stage::Header ==> c.expects(ConnectionEvent::HeaderRead { header })
            && c.expects(ConnectionEvent::HeaderMissing),
        c.stage == (Stage::Payload { len: bytes@.len() as usize }) && bytes@.len() <= usize::MAX
            ==> c.expects(ConnectionEvent::PayloadRead { data: bytes }),
        c.stage == Stage::Delivery ==> c.expects(ConnectionEvent::Delivered),
        c.stage == Stage::AnswerLength && bytes@.len() == 4 ==> c.expects(
            ConnectionEvent::AnswerRead { bytes },
        ),
        c.stage == (Stage::Answer { len: bytes@.len() as usize }) && bytes@.len() <= usize::MAX
            ==> c.expects(ConnectionEvent::AnswerRead { bytes }),
        c.stage == Stage::Ended ==> !c.expects(ConnectionEvent::Failed) && !c.expects(
            ConnectionEvent::HeaderRead { header },
        ) && !c.expects(ConnectionEvent::PayloadRead { data: bytes }),
{
}

/// A payload that cannot be decoded ends the connection with that error. One
/// that opens a session goes to the socket of the TA it names, and the
/// connection has its session there from now on. Any other goes to the socket
/// of the session that there is, which stays; without one, the connection ends.
/// Nothing is sent to the client, and the TA gets the payload with its length
/// in front.
pub proof fn law_payload_goes_to_its_ta(
    c: ConnectionView,
    data: Vec<u8>,
    step: ConnectionStep,
    after: ConnectionView,
)
    requires
        c.steps(ConnectionEvent::PayloadRead { data }, step, after),
    ensures
        step.to_client@.len() == 0,
        after.order == c.order,
        match (decoded_request(data@), c.session) {
            (Err(e), _) => step.action == ConnectionAction::End(
                ConnectionEnd::Refused(PacketError::Malformed(e)),
            ) && after.session == c.session && after.stage == Stage::Ended,
            (Ok(KindView::OpenSession(uuid)), _) => after.session == Some(uuid) && after.stage
                == Stage::Delivery && (step.action matches ConnectionAction::Deliver(forward)
                && forward.socket_path@ == "/tmp/"@ + uuid + ".sock"@ && forward.message@
                == u32_bytes(c.order, data@.len() as u32) + data@),
            (Ok(_), Some(uuid)) => after.session == Some(uuid) && after.stage == Stage::Delivery && (
            step.action matches ConnectionAction::Deliver(forward) && forward.socket_path@
                == "/tmp/"@ + uuid + ".sock"@ && forward.message@ == u32_bytes(
                c.order,
                data@.len() as u32,
            ) + data@),
            (Ok(_), None) => step.action == ConnectionAction::End(ConnectionEnd::NoSession)
                && after.session is None && after.stage == Stage::Ended,
        },
{
}

} // verus!
