//! Short time-and-random identifiers for responses and requests.

use vstd::prelude::*;
use crate::text::{hex, append_hex, string_from_chars};

verus! {

/// Milliseconds since the Unix epoch from `std::time::SystemTime`, or zero
/// when the clock reads before the epoch. Nothing is known of the value.
#[verifier::external_body]
pub fn system_time_millis() -> u128 {
    std::time::SystemTime::now().duration_since(std::time::UNIX_EPOCH).unwrap_or_default().as_millis()
}

/// Whole seconds since the Unix epoch from `std::time::SystemTime`, or zero
/// when the clock reads before the epoch. Nothing is known of the value.
#[verifier::external_body]
pub fn system_time_secs() -> u64 {
    std::time::SystemTime::now().duration_since(std::time::UNIX_EPOCH).unwrap_or_default().as_secs()
}

/// A random `u64` from `fastrand::u64(..)`. Nothing is known of the value.
#[verifier::external_body]
pub fn random_u64() -> u64 {
    fastrand::u64(..)
}

/// The text of a short identifier: the timestamp in hex followed by the low
/// 32 bits of the random value in hex.
pub open spec fn short_id(ts: u128, rand: u64) -> Seq<char> {
    hex(ts as nat) + hex((rand % 0x1_0000_0000) as nat)
}

/// Formats a short identifier from a timestamp and a random value.
pub fn short_id_from(ts: u128, rand: u64) -> (r: String)
    ensures
        r@ == short_id(ts, rand),
{
    let mut out: Vec<char> = Vec::new();
    append_hex(&mut out, ts);
    let low = rand & 0xFFFF_FFFF;
    assert(rand & 0xFFFF_FFFF == rand % 0x1_0000_0000) by (bit_vector);
    append_hex(&mut out, low as u128);
    assert(out@ =~= short_id(ts, rand));
    string_from_chars(&out)
}

/// A fresh short identifier: the current time in milliseconds and a random
/// 32-bit value, both in hex.
pub fn uuid_short() -> (r: String)
    ensures
        exists|ts: u128, rand: u64| r@ == #[trigger] short_id(ts, rand),
{
    let ts = system_time_millis();
    let rand = random_u64();
    short_id_from(ts, rand)
}

/// A lower-case hexadecimal digit.
pub open spec fn is_lower_hex(c: char) -> bool {
    ('0' <= c && c <= '9') || ('a' <= c && c <= 'f')
}

/// A random version-4 UUID in its simple form, from
/// `uuid::Uuid::new_v4().simple()`: 32 lower-case hexadecimal digits
/// without hyphens. Which digits come is chance.
#[verifier::external_body]
pub fn uuid_v4_simple() -> (r: String)
    ensures
        r@.len() == 32,
        forall|i: int| 0 <= i < 32 ==> is_lower_hex(#[trigger] r@[i]),
{
    uuid::Uuid::new_v4().simple().to_string()
}

} // verus!
