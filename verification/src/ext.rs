//! Wrappers around the outside crates the gateway relies on: token syntax
//! checking and token minting (uuid), session-id randomness (rand), clock
//! reads (chrono), and JSON extraction for inbound frames (serde_json).

use vstd::prelude::*;

verus! {

/// Whether a string is a well-formed token, exactly as `uuid::Uuid::parse_str`
/// decides it. The answer is a function of the characters alone.
pub uninterp spec fn uuid_valid(s: Seq<char>) -> bool;

/// Relies on `uuid::Uuid::parse_str`: accepts precisely the strings that parse
/// as a UUID, a decision that depends only on the input string.
#[verifier::external_body]
pub(crate) fn token_is_uuid(s: &str) -> (r: bool)
    ensures
        r == uuid_valid(s@),
{
    uuid::Uuid::parse_str(s).is_ok()
}

/// Relies on `uuid::Uuid::new_v4` and the `Display` form of a UUID, documented
/// as hyphenated: 32 hexadecimal digits in five groups, 36 characters in all.
/// The hyphenated form is one of the formats `parse_str` documents as
/// accepted, so a minted token validates.
#[verifier::external_body]
pub(crate) fn new_token() -> (r: String)
    ensures
        r@.len() == 36,
        uuid_valid(r@),
{
    uuid::Uuid::new_v4().to_string()
}

/// Relies on `rand::random`: a uniformly drawn value, of which nothing is
/// promised.
#[verifier::external_body]
pub(crate) fn random_u64() -> u64 {
    rand::random::<u64>()
}

/// Relies on `chrono::Utc::now` and `DateTime::timestamp`: the wall clock read
/// as seconds since the Unix epoch, of which nothing is promised.
#[verifier::external_body]
pub(crate) fn now_timestamp() -> i64 {
    chrono::Utc::now().timestamp()
}

#[verifier::external_type_specification]
#[verifier::external_body]
pub struct ExValue(serde_json::Value);

/// Whether a string is well-formed JSON, exactly as `serde_json::from_str`
/// decides it.
pub uninterp spec fn json_well_formed(s: Seq<char>) -> bool;

/// What the `op` member of a frame holds, as `serde_json` extracts it: the
/// member's value when the text is well-formed JSON whose `op` member is an
/// integer that fits a `u64`, and nothing otherwise. A function of the text
/// alone.
pub uninterp spec fn envelope_op_of(s: Seq<char>) -> Option<u64>;

/// Whether a frame carries a `d` member, as `serde_json` extracts it: false
/// when the text is not well-formed JSON. A function of the text alone.
pub uninterp spec fn envelope_has_d(s: Seq<char>) -> bool;

/// What the `token` member of a frame's `d` member holds, as `serde_json`
/// extracts it: the member's characters when it is a string, and nothing
/// otherwise — or when the text is not well-formed JSON. A function of the
/// text alone.
pub uninterp spec fn envelope_token_of(s: Seq<char>) -> Option<Seq<char>>;

/// Relies on `serde_json::from_str`, `Value::get`, `Value::as_u64` and
/// `Value::as_str`: whether the text parses, the `op` integer, the presence
/// of `d`, and the string `token` member of `d` — each a function of the
/// text alone.
#[verifier::external_body]
pub(crate) fn extract_envelope(text: &str) -> (r: (bool, Option<u64>, bool, Option<String>))
    ensures
        r.0 == json_well_formed(text@),
        r.1 == envelope_op_of(text@),
        r.2 == envelope_has_d(text@),
        r.3.deep_view() == envelope_token_of(text@),
{
    match serde_json::from_str::<serde_json::Value>(text) {
        Err(_) => (false, None, false, None),
        Ok(v) => (
            true,
            v.get("op").and_then(|m| m.as_u64()),
            v.get("d").is_some(),
            v.get("d").and_then(|d| d.get("token")).and_then(|t| t.as_str()).map(|t| t.to_owned()),
        ),
    }
}

/// Relies on `serde_json::Value::as_u64`: the value of an integer member that
/// fits in a `u64`, `None` for every other kind of value.
#[verifier::external_body]
pub(crate) fn json_as_u64(v: &serde_json::Value) -> Option<u64> {
    v.as_u64()
}

/// Relies on `String::push`: appends exactly one character.
#[verifier::external_body]
pub(crate) fn push_char(s: &mut String, c: char)
    ensures
        final(s)@ == old(s)@.push(c),
{
    s.push(c);
}

} // verus!
