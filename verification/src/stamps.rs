//! Fresh identifiers and the current time, from `uuid` and `chrono`.
//! What these calls return depends on chance and on the clock, so their
//! contracts say only what holds of every outcome.
use vstd::prelude::*;

verus! {

/// A lowercase hexadecimal digit.
pub open spec fn is_lower_hex(c: char) -> bool {
    ('0' <= c && c <= '9') || ('a' <= c && c <= 'f')
}

/// The hyphenated text of a random (version 4, RFC 4122 variant) UUID:
/// 36 characters, hyphens at positions 8, 13, 18 and 23, lowercase hex
/// digits elsewhere, the version digit `4` at position 14 and one of
/// `8`, `9`, `a`, `b` at position 19.
pub open spec fn is_hyphenated_v4_uuid(s: Seq<char>) -> bool {
    &&& s.len() == 36
    &&& forall|i: int|
        0 <= i < 36 ==> if i == 8 || i == 13 || i == 18 || i == 23 {
            #[trigger] s[i] == '-'
        } else {
            is_lower_hex(s[i])
        }
    &&& s[14] == '4'
    &&& (s[19] == '8' || s[19] == '9' || s[19] == 'a' || s[19] == 'b')
}

/// Calls `uuid::Uuid::new_v4` and renders it with `Display`.
/// The UUID is random; the contract states the shape that `Display`
/// (hyphenated, lowercase) gives every version 4 UUID.
#[verifier::external_body]
pub fn new_uuid_v4() -> (res: String)
    ensures
        is_hyphenated_v4_uuid(res@),
{
    uuid::Uuid::new_v4().to_string()
}

/// Calls `chrono::Utc::now` and renders it with `Display`
/// (`<date> <time> UTC`). The instant is the clock's; the contract states
/// only the ` UTC` ending that the offset's `Display` writes.
#[verifier::external_body]
pub fn utc_now_display() -> (res: String)
    ensures
        res@.len() >= 4,
        res@.subrange(res@.len() - 4, res@.len() as int) == " UTC"@,
{
    chrono::Utc::now().to_string()
}

/// Calls `chrono::Utc::now` and renders it with `DateTime::to_rfc3339`.
/// The instant is the clock's; the contract states only the `+00:00`
/// offset that RFC 3339 text of a UTC time ends with.
#[verifier::external_body]
pub fn utc_now_rfc3339() -> (res: String)
    ensures
        res@.len() >= 6,
        res@.subrange(res@.len() - 6, res@.len() as int) == "+00:00"@,
{
    chrono::Utc::now().to_rfc3339()
}

} // verus!
