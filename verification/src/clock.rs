//! Time and randomness: the system clock, RFC 3339 text from `chrono`, and
//! random numbers from the operating system through `rand`.
use vstd::prelude::*;
use crate::format::{hex_digits, push_hex};
use rand::TryRngCore;

verus! {

/// A point in time: seconds since the Unix epoch, and nanoseconds within the
/// second (up to 1 999 999 999 inside a leap second).
#[derive(Clone, Copy, Debug)]
pub struct Timestamp {
    pub secs: i64,
    pub nanos: u32,
}

/// `a` is at or before `b`.
pub open spec fn not_after(a: Timestamp, b: Timestamp) -> bool {
    a.secs < b.secs || (a.secs == b.secs && a.nanos <= b.nanos)
}

/// The RFC 3339 text that `chrono` writes for a UTC time, or `None` where
/// `chrono` cannot represent the time.
pub uninterp spec fn rfc3339_text(secs: i64, nanos: u32) -> Option<Seq<char>>;

/// Reads the system clock with `SystemTime::elapsed` on `UNIX_EPOCH`, and
/// takes the duration apart with `Duration::as_secs` and
/// `Duration::subsec_nanos`. `None` where the clock reads before the epoch.
/// Claimed of a reading, which is otherwise free: its nanoseconds are below
/// 1 000 000 000, as `subsec_nanos` documents.
#[verifier::external_body]
fn unix_time_now() -> (t: Option<(u64, u32)>)
    ensures
        t matches Some(p) ==> p.1 < 1_000_000_000,
{
    match std::time::UNIX_EPOCH.elapsed() {
        Ok(d) => Some((d.as_secs(), d.subsec_nanos())),
        Err(_) => None,
    }
}

/// Makes a `chrono::DateTime<Utc>` with `DateTime::from_timestamp` and writes
/// it with `DateTime::to_rfc3339`. Claimed: the text, or its absence where
/// `from_timestamp` refuses the time, is `rfc3339_text` of the arguments.
#[verifier::external_body]
fn format_rfc3339(secs: i64, nanos: u32) -> (s: Option<String>)
    ensures
        match s {
            Some(t) => rfc3339_text(secs, nanos) == Some(t@),
            None => rfc3339_text(secs, nanos) is None,
        },
{
    match chrono::DateTime::from_timestamp(secs, nanos) {
        Some(d) => Some(d.to_rfc3339()),
        None => None,
    }
}

/// Fills 16 bytes from the operating system's generator with
/// `TryRngCore::try_fill_bytes` on `rand::rngs::OsRng`, and reads them as a
/// little-endian number; `None` where the generator fails. Nothing is claimed
/// of the number.
#[verifier::external_body]
fn random_u128() -> Option<u128> {
    let mut bytes = [0u8; 16];
    match rand::rngs::OsRng.try_fill_bytes(&mut bytes) {
        Ok(()) => Some(u128::from_le_bytes(bytes)),
        Err(_) => None,
    }
}

/// The current time, from the system clock, as `chrono::Utc::now` reads it;
/// `None` where that would fail: a clock before the Unix epoch, or a time
/// that `chrono` cannot represent.
pub fn current_time() -> (t: Option<Timestamp>)
    ensures
        t matches Some(x) ==> x.nanos < 1_000_000_000 && rfc3339_text(x.secs, x.nanos) is Some,
{
    match unix_time_now() {
        None => None,
        Some((secs, nanos)) => {
            if secs > 0x7fff_ffff_ffff_ffff {
                return None;
            }
            let t = Timestamp { secs: secs as i64, nanos };
            match timestamp_text(t) {
                Some(_) => Some(t),
                None => None,
            }
        },
    }
}

/// The RFC 3339 text of `t`, or `None` where it cannot be represented.
pub fn timestamp_text(t: Timestamp) -> (s: Option<String>)
    ensures
        match s {
            Some(x) => rfc3339_text(t.secs, t.nanos) == Some(x@),
            None => rfc3339_text(t.secs, t.nanos) is None,
        },
{
    format_rfc3339(t.secs, t.nanos)
}

/// A token: two numbers written as 32 lower-case hexadecimal digits each.
pub open spec fn token_text(a: nat, b: nat) -> Seq<char> {
    hex_digits(a, 32) + hex_digits(b, 32)
}

/// `token_text(a, b)`, computed.
pub fn token_from_words(a: u128, b: u128) -> (t: String)
    ensures
        t@ == token_text(a as nat, b as nat),
{
    let mut t = String::new();
    push_hex(&mut t, a, 32);
    push_hex(&mut t, b, 32);
    assert(t@ =~= token_text(a as nat, b as nat));
    t
}

/// A fresh random token of 64 lower-case hexadecimal digits; `None` where
/// the operating system's generator fails.
pub fn generate_token() -> (t: Option<String>)
    ensures
        t matches Some(x) ==> exists|a: u128, b: u128| x@ == #[trigger] token_text(a as nat, b as nat),
{
    let a = match random_u128() {
        Some(a) => a,
        None => return None,
    };
    let b = match random_u128() {
        Some(b) => b,
        None => return None,
    };
    let t = token_from_words(a, b);
    assert(t@ == token_text(a as nat, b as nat));
    Some(t)
}

} // verus!
