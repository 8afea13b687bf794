//! What the rotating pre-shared key is made from.
//!
//! The key is `HMAC-SM3(base_key, message)`, where `base_key` is the SM3 digest
//! of a fixed text and the message is the number of the current time window. It
//! changes with every window; two sides that are in the same window have the
//! same key.

use vstd::prelude::*;

use crate::bytes::{law_u64_bytes_are_distinct, u64_bytes, write_u64, ByteOrder};

verus! {

/// The length of a time window, in seconds.
pub const TIME_WINDOW_SIZE: u64 = 300;

/// The bytes of an ASCII text.
pub open spec fn ascii_bytes(text: Seq<char>) -> Seq<u8> {
    Seq::new(text.len(), |i: int| text[i] as u8)
}

/// The text from which the base key is made.
pub open spec fn base_key_text() -> Seq<char> {
    "www.kylinos.cn"@ + "rust-libteec"@ + "libcc_teec"@
}

/// The name by which the two sides agree on the key.
pub fn get_psk_identity() -> (identity: &'static str)
    ensures
        identity@ == "rust-libteec"@,
{
    "rust-libteec"
}

/// The number of the time window in which a moment lies, given in seconds of
/// Unix time. A clock from before that time began is in the first window.
pub open spec fn window_at(unix_secs: Option<u64>) -> u64 {
    match unix_secs {
        Some(secs) => secs / TIME_WINDOW_SIZE,
        None => 0,
    }
}

/// The number of the time window in which a moment lies, given in seconds of
/// Unix time; `None` for a moment before that time began.
pub fn get_time_window(unix_secs: Option<u64>) -> (window: u64)
    ensures
        window == window_at(unix_secs),
{
    match unix_secs {
        Some(secs) => secs / TIME_WINDOW_SIZE,
        None => 0,
    }
}

/// The key of window `other` is accepted in window `own`: the two are the same
/// or next to each other.
pub open spec fn is_accepted(own: u64, other: u64) -> bool {
    -1 <= own - other <= 1
}

/// Whether the key of window `other` is accepted in window `own`.
pub fn accepts(own: u64, other: u64) -> (accepted: bool)
    ensures
        accepted == is_accepted(own, other),
{
    if own < other {
        other - own == 1
    } else {
        own - other <= 1
    }
}

/// The windows whose keys are accepted in a window: it comes first, then the
/// one before and the one after, as far as there is one.
pub fn accepted_windows(own: u64) -> (windows: Vec<u64>)
    ensures
        windows@ == seq![own] + (if own > 0 {
            seq![(own - 1) as u64]
        } else {
            seq![]
        }) + (if own < u64::MAX {
            seq![(own + 1) as u64]
        } else {
            seq![]
        }),
        forall|other: u64| #[trigger] windows@.contains(other) <==> is_accepted(own, other),
{
    let mut windows: Vec<u64> = Vec::new();
    windows.push(own);
    if own > 0 {
        windows.push(own - 1);
    }
    if own < u64::MAX {
        windows.push(own + 1);
    }
    assert forall|other: u64| is_accepted(own, other) implies #[trigger] windows@.contains(
        other,
    ) by {
        if other == own {
            assert(windows@[0] == other);
        } else if other < own {
            assert(windows@[1] == other);
        } else {
            assert(windows@[windows@.len() - 1] == other);
        }
    }
    windows
}

/// Appends the bytes of an ASCII text.
fn append_ascii(bytes: &mut Vec<u8>, text: &str)
    requires
        text.is_ascii(),
    ensures
        final(bytes)@ == old(bytes)@ + ascii_bytes(text@),
{
    broadcast use vstd::string::is_ascii_spec_bytes;

    bytes.extend_from_slice(text.as_bytes());
    assert(bytes@ =~= old(bytes)@ + ascii_bytes(text@));
}

/// The bytes whose SM3 digest is the base key.
pub fn base_key_input() -> (bytes: Vec<u8>)
    ensures
        bytes@ == ascii_bytes(base_key_text()),
{
    proof {
        reveal_strlit("www.kylinos.cn");
        reveal_strlit("rust-libteec");
        reveal_strlit("libcc_teec");
    }
    let mut bytes: Vec<u8> = Vec::new();
    append_ascii(&mut bytes, "www.kylinos.cn");
    append_ascii(&mut bytes, get_psk_identity());
    append_ascii(&mut bytes, "libcc_teec");
    assert(bytes@ =~= ascii_bytes(base_key_text()));
    bytes
}

/// The message that is signed with the base key to get the key of a window:
/// the number of the window, most significant byte first.
pub fn psk_message(window: u64) -> (message: [u8; 8])
    ensures
        message@ == u64_bytes(ByteOrder::Big, window),
{
    write_u64(ByteOrder::Big, window)
}

/// The message that is signed at a moment.
pub open spec fn message_at(unix_secs: Option<u64>) -> Seq<u8> {
    u64_bytes(ByteOrder::Big, window_at(unix_secs))
}

/// The message is the same at two moments exactly where both lie in the same
/// window. So the key stays for a window and changes with the next.
pub proof fn law_message_rotates(s: Option<u64>, t: Option<u64>)
    ensures
        message_at(s) == message_at(t) <==> window_at(s) == window_at(t),
{
    if message_at(s) == message_at(t) {
        law_u64_bytes_are_distinct(ByteOrder::Big, window_at(s), window_at(t));
    }
}

/// A message is not used again once a whole window has passed.
pub proof fn law_message_is_not_reused(s: u64, t: u64)
    requires
        s + TIME_WINDOW_SIZE <= t,
    ensures
        message_at(Some(s)) != message_at(Some(t)),
{
    law_message_rotates(Some(s), Some(t));
}

/// Two sides accept each other's keys where their clocks are no more than a
/// window apart, whichever is ahead. They never do where the clocks are two
/// windows apart or more.
pub proof fn law_clock_tolerance(s: u64, t: u64)
    ensures
        -TIME_WINDOW_SIZE <= s - t <= TIME_WINDOW_SIZE ==> is_accepted(
            window_at(Some(s)),
            window_at(Some(t)),
        ) && is_accepted(window_at(Some(t)), window_at(Some(s))),
        s - t >= 2 * TIME_WINDOW_SIZE || t - s >= 2 * TIME_WINDOW_SIZE ==> !is_accepted(
            window_at(Some(s)),
            window_at(Some(t)),
        ),
{
}

} // verus!
