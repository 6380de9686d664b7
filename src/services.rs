//! Calls into the outside crates the server relies on: fresh identifiers, the
//! clock, password hashing and e-mail validation.
use vstd::prelude::*;

use validator::ValidateEmail;

verus! {

/// Whether `c` is a lowercase hexadecimal digit.
pub open spec fn is_hex_digit(c: char) -> bool {
    ('0' <= c && c <= '9') || ('a' <= c && c <= 'f')
}

/// An identifier of the form the server mints: 32 lowercase hex digits.
pub open spec fn is_hex_id(s: Seq<char>) -> bool {
    s.len() == 32 && forall|i: int| 0 <= i < s.len() ==> is_hex_digit(#[trigger] s[i])
}

/// Whether the validator crate accepts `s` as an e-mail address.
pub uninterp spec fn email_accepted(s: Seq<char>) -> bool;

/// Whether bcrypt accepts `password` against the stored `hash`.
pub uninterp spec fn password_accepted(password: Seq<char>, hash: Seq<char>) -> bool;

/// Relies on uuid's `Uuid::new_v4` and its `simple` format: a random
/// identifier written as 32 lowercase hex digits, without dashes.
#[verifier::external_body]
pub(crate) fn fresh_id() -> (r: String)
    ensures
        is_hex_id(r@),
{
    uuid::Uuid::new_v4().simple().to_string()
}

/// Relies on chrono's `Utc::now().timestamp()`: the current time in seconds
/// since the epoch.
#[verifier::external_body]
pub(crate) fn now_seconds() -> (r: i64) {
    chrono::Utc::now().timestamp()
}

/// Relies on bcrypt's `hash` at its default cost: the salt is random, so the
/// hash itself is not fixed, but `verify` accepts `password` against it.
/// `None` where bcrypt reports an error.
#[verifier::external_body]
pub(crate) fn hash_password(password: &String) -> (r: Option<String>)
    ensures
        r matches Some(h) ==> password_accepted(password@, h@),
{
    bcrypt::hash(password.as_str(), bcrypt::DEFAULT_COST).ok()
}

/// Relies on bcrypt's `verify`: whether `password` hashes to `hash` under the
/// salt and cost that `hash` holds; a malformed hash is not accepted.
#[verifier::external_body]
pub(crate) fn password_matches(password: &String, hash: &String) -> (r: bool)
    ensures
        r == password_accepted(password@, hash@),
{
    bcrypt::verify(password.as_str(), hash.as_str()).unwrap_or(false)
}

/// Relies on validator's `ValidateEmail::validate_email`: an empty string,
/// or one without `@`, is refused.
#[verifier::external_body]
pub(crate) fn is_valid_email(s: &String) -> (r: bool)
    ensures
        r == email_accepted(s@),
        s@.len() == 0 ==> !r,
        !s@.contains('@') ==> !r,
{
    s.validate_email()
}

} // verus!
