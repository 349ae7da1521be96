//! viban: the verified core of an agent-driven Kanban board — classifying
//! the agent CLI's event stream, slugging branch names, the JSON-RPC server's
//! decisions, and the desktop shell's supervision logic.

use vstd::prelude::*;

pub mod agents;
pub mod auth;
pub mod board;
pub mod exec;
pub mod git;
pub mod json;
pub mod paths;
pub mod rpc;
pub mod shell;
pub mod text;
pub mod types;

pub use agents::AgentEvent;
pub use types::{Attempt, Board, Checkpoint, Column, Message, Session, Task};

use crate::paths::{hex_char, is_hex_char};
use crate::shell::{hex_bytes, lemma_hex_bytes_len, lemma_hex_pair};

verus! {

/// The crate version.
pub const VERSION: &'static str = "0.1.0";

/// The shape of a hyphenated lowercase UUID: 36 characters, dashes at 8, 13,
/// 18 and 23, lowercase hex digits elsewhere.
pub open spec fn is_uuid_text(s: Seq<char>) -> bool {
    &&& s.len() == 36
    &&& forall|i: int|
        0 <= i < 36 ==> if i == 8 || i == 13 || i == 18 || i == 23 {
            #[trigger] s[i] == '-'
        } else {
            ('0' <= s[i] <= '9') || ('a' <= s[i] <= 'f')
        }
}

/// `len` bytes from the operating system's random source
/// (`getrandom::fill`), or `None` when the source fails. Only the length is
/// claimed.
#[verifier::external_body]
pub(crate) fn random_bytes(len: usize) -> (r: Option<Vec<u8>>)
    ensures
        r matches Some(bytes) ==> bytes.len() == len,
{
    let mut bytes = vec![0u8; len];
    match getrandom::fill(&mut bytes) {
        Ok(()) => Some(bytes),
        Err(_) => None,
    }
}

/// The bytes of a version-4 UUID made from 16 random bytes: the high nibble
/// of byte 6 set to the version, 4, and the top two bits of byte 8 to the
/// RFC 4122 variant, `10`.
pub open spec fn v4_bytes(random: Seq<u8>) -> Seq<u8> {
    random.update(6, (random[6] & 0x0f) | 0x40).update(8, (random[8] & 0x3f) | 0x80)
}

/// The hyphenated lowercase text of 16 bytes: hex digit groups of 8, 4, 4, 4
/// and 12, joined by dashes.
pub open spec fn hyphenated(b: Seq<u8>) -> Seq<char> {
    hex_bytes(b.subrange(0, 4)) + seq!['-'] + hex_bytes(b.subrange(4, 6)) + seq!['-'] + hex_bytes(
        b.subrange(6, 8),
    ) + seq!['-'] + hex_bytes(b.subrange(8, 10)) + seq!['-'] + hex_bytes(b.subrange(10, 16))
}

/// `uuid::Builder::from_random_bytes(bytes).into_uuid().to_string()`: the
/// version-4 UUID built from 16 random bytes, as hyphenated lowercase text.
/// It cannot fail or panic.
#[verifier::external_body]
fn uuid_from_random_bytes(random: &[u8]) -> (r: String)
    requires
        random@.len() == 16,
    ensures
        r@ == hyphenated(v4_bytes(random@)),
{
    let mut bytes = [0u8; 16];
    bytes.copy_from_slice(random);
    uuid::Builder::from_random_bytes(bytes).into_uuid().to_string()
}

proof fn lemma_hex_bytes_digits(bytes: Seq<u8>)
    ensures
        hex_bytes(bytes).len() == 2 * bytes.len(),
        forall|i: int|
            0 <= i < hex_bytes(bytes).len() ==> is_hex_char(#[trigger] hex_bytes(bytes)[i]),
    decreases bytes.len(),
{
    lemma_hex_bytes_len(bytes);
    if bytes.len() > 0 {
        lemma_hex_bytes_digits(bytes.drop_last());
        lemma_hex_pair(bytes.last() as nat);
        let v = bytes.last() as nat;
        assert(is_hex_char(hex_char((v / 16) as int)));
        assert(is_hex_char(hex_char((v % 16) as int)));
    }
}

/// The hyphenated text of 16 bytes has the shape of a UUID.
proof fn lemma_hyphenated_shape(b: Seq<u8>)
    requires
        b.len() == 16,
    ensures
        is_uuid_text(hyphenated(b)),
{
    lemma_hex_bytes_digits(b.subrange(0, 4));
    lemma_hex_bytes_digits(b.subrange(4, 6));
    lemma_hex_bytes_digits(b.subrange(6, 8));
    lemma_hex_bytes_digits(b.subrange(8, 10));
    lemma_hex_bytes_digits(b.subrange(10, 16));
    let s = hyphenated(b);
    let p0 = hex_bytes(b.subrange(0, 4));
    let p1 = hex_bytes(b.subrange(4, 6));
    let p2 = hex_bytes(b.subrange(6, 8));
    let p3 = hex_bytes(b.subrange(8, 10));
    let p4 = hex_bytes(b.subrange(10, 16));
    assert forall|i: int| 0 <= i < 36 implies if i == 8 || i == 13 || i == 18 || i == 23 {
        #[trigger] s[i] == '-'
    } else {
        ('0' <= s[i] <= '9') || ('a' <= s[i] <= 'f')
    } by {
        if i < 8 {
            assert(s[i] == p0[i]);
        } else if i == 8 {
        } else if i < 13 {
            assert(s[i] == p1[i - 9]);
        } else if i == 13 {
        } else if i < 18 {
            assert(s[i] == p2[i - 14]);
        } else if i == 18 {
        } else if i < 23 {
            assert(s[i] == p3[i - 19]);
        } else if i == 23 {
        } else {
            assert(s[i] == p4[i - 24]);
        }
    }
}

/// A fresh random identifier (UUID v4) — used for session, message, and task
/// ids — built from 16 bytes of OS randomness; `None` when the OS has no
/// randomness to give.
pub fn new_id() -> (r: Option<String>)
    ensures
        r matches Some(id) ==> is_uuid_text(id@) && exists|random: Seq<u8>|
            random.len() == 16 && id@ == hyphenated(v4_bytes(random)),
{
    match random_bytes(16) {
        Some(bytes) => {
            let id = uuid_from_random_bytes(bytes.as_slice());
            proof {
                lemma_hyphenated_shape(v4_bytes(bytes@));
            }
            Some(id)
        },
        None => None,
    }
}

#[verifier::external_type_specification]
#[verifier::external_body]
pub struct ExSystemTime(std::time::SystemTime);

/// `SystemTime::now`. Nothing is claimed of the reading.
#[verifier::external_body]
fn clock_now() -> std::time::SystemTime {
    std::time::SystemTime::now()
}

/// `SystemTime::duration_since(UNIX_EPOCH)`, `None` for a time before the
/// epoch. Nothing is claimed of the duration.
#[verifier::external_body]
fn since_unix_epoch(time: &std::time::SystemTime) -> Option<core::time::Duration> {
    time.duration_since(std::time::UNIX_EPOCH).ok()
}

/// `Duration::as_millis`. Nothing is claimed of the count.
#[verifier::external_body]
fn whole_millis(duration: &core::time::Duration) -> u128 {
    duration.as_millis()
}

/// The epoch-millisecond timestamp of a clock reading: the whole
/// milliseconds since the Unix epoch truncated to 64 bits, or 0 for a clock
/// that reads before the epoch (`None`).
pub open spec fn millis_since_epoch_of(elapsed: Option<u128>) -> i64 {
    match elapsed {
        Some(ms) => ms as i64,
        None => 0,
    }
}

/// Converts the whole milliseconds elapsed since the Unix epoch (`None` when
/// the clock reads before it) into the timestamp stored on every row.
pub fn millis_since_epoch(elapsed: Option<u128>) -> (r: i64)
    ensures
        r == millis_since_epoch_of(elapsed),
{
    match elapsed {
        Some(ms) => ms as i64,
        None => 0,
    }
}

/// The current time as Unix epoch milliseconds: 0 when the clock reads before
/// the epoch; the count truncated to 64 bits otherwise. The clock's reading
/// itself is not claimed: the result is the conversion of some reading.
pub fn now_millis() -> (r: i64)
    ensures
        exists|elapsed: Option<u128>| r == millis_since_epoch_of(elapsed),
{
    let elapsed = match since_unix_epoch(&clock_now()) {
        Some(duration) => Some(whole_millis(&duration)),
        None => None,
    };
    millis_since_epoch(elapsed)
}

} // verus!
