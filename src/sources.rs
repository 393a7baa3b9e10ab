//! Hashing, randomness and the clock, as supplied by outside crates.
use rand::Rng;
use vstd::prelude::*;

verus! {

/// Whether bcrypt accepts `password` against `hash`.
pub uninterp spec fn bcrypt_accepts(password: Seq<char>, hash: Seq<char>) -> bool;

/// Relies on `bcrypt::verify`: it recomputes the digest of `password` under
/// the cost and salt written in `hash` and compares it, in constant time,
/// with the digest written there, so the answer depends on the two strings
/// alone. A hash that it cannot parse verifies no password.
#[verifier::external_body]
pub(crate) fn password_matches(password: &str, hash: &str) -> (r: bool)
    ensures
        r == bcrypt_accepts(password@, hash@),
{
    match bcrypt::verify(password, hash) {
        Ok(ok) => ok,
        Err(_) => false,
    }
}

/// Relies on `uuid::Uuid::new_v4`, printed in its hyphenated form of 36
/// characters: a random token.
#[verifier::external_body]
pub(crate) fn fresh_token() -> (r: String)
    ensures
        r@.len() == 36,
{
    uuid::Uuid::new_v4().to_string()
}

/// Relies on `chrono::Utc::now`, read as whole seconds since the Unix epoch.
#[verifier::external_body]
pub(crate) fn current_time() -> (r: i64) {
    chrono::Utc::now().timestamp()
}

/// Relies on `rand::Rng::gen_range` over the thread-local generator: a
/// uniform draw from `0..len`. It panics on an empty range.
#[verifier::external_body]
pub(crate) fn random_index(len: usize) -> (r: usize)
    requires
        len > 0,
    ensures
        r < len,
{
    rand::thread_rng().gen_range(0..len)
}

/// An ASCII letter or digit.
pub open spec fn is_alphanumeric_byte(b: u8) -> bool {
    (48 <= b <= 57) || (65 <= b <= 90) || (97 <= b <= 122)
}

/// Relies on rand's `Alphanumeric` distribution over the thread-local
/// generator: `len` bytes, each drawn from `A-Z`, `a-z` and `0-9`.
#[verifier::external_body]
pub(crate) fn random_alphanumeric(len: usize) -> (r: Vec<u8>)
    ensures
        r@.len() == len,
        forall|i: int| 0 <= i < r@.len() ==> is_alphanumeric_byte(#[trigger] r@[i]),
{
    rand::thread_rng().sample_iter(&rand::distributions::Alphanumeric).take(len).collect()
}

/// Relies on `String::from_utf8`, which accepts every ASCII byte sequence and
/// keeps one character per byte; its error arm is never taken here.
#[verifier::external_body]
pub(crate) fn ascii_string(bytes: Vec<u8>) -> (r: String)
    requires
        forall|i: int| 0 <= i < bytes@.len() ==> #[trigger] bytes@[i] < 128,
    ensures
        r@.len() == bytes@.len(),
        forall|i: int| 0 <= i < bytes@.len() ==> #[trigger] r@[i] as u32 == bytes@[i] as u32,
{
    match String::from_utf8(bytes) {
        Ok(s) => s,
        Err(_) => String::new(),
    }
}

} // verus!
