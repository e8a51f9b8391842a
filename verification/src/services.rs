//! The outside services that the application state relies on: random
//! identifiers, the clock, and password hashing.
use crate::text::has_prefix;
use vstd::prelude::*;
use vstd::string::*;

verus! {

/// A lowercase hexadecimal digit.
pub open spec fn is_lower_hex(c: char) -> bool {
    ('0' <= c && c <= '9') || ('a' <= c && c <= 'f')
}

/// Where the hyphens of the hyphenated UUID form stand.
pub open spec fn is_uuid_hyphen_position(i: int) -> bool {
    i == 8 || i == 13 || i == 18 || i == 23
}

/// The hyphenated lowercase text of a version-4 (random), RFC 4122 variant
/// UUID: 36 characters, hyphens at 8, 13, 18 and 23, lowercase hex digits
/// elsewhere, the version digit `4` at 14 and a variant digit of `8`, `9`,
/// `a` or `b` at 19.
pub open spec fn is_uuid_v4_text(s: Seq<char>) -> bool {
    &&& s.len() == 36
    &&& forall|i: int|
        0 <= i < 36 ==> if is_uuid_hyphen_position(i) {
            s[i] == '-'
        } else {
            is_lower_hex(#[trigger] s[i])
        }
    &&& s[14] == '4'
    &&& (s[19] == '8' || s[19] == '9' || s[19] == 'a' || s[19] == 'b')
}

/// A fresh identifier: `uuid::Uuid::new_v4()` rendered by its `Display` impl.
/// The crate masks random bits with the version `4` and the RFC 4122 variant,
/// and `Display` writes the hyphenated lowercase form; which UUID comes out is
/// random and not claimed. It panics only if the operating system's random
/// source fails.
#[verifier::external_body]
pub(crate) fn new_uuid() -> (r: String)
    ensures
        is_uuid_v4_text(r@),
{
    uuid::Uuid::new_v4().to_string()
}

/// The RFC 3339 text of a UTC time from the clock: the date and time, at
/// least `YYYY-MM-DDTHH:MM:SS` (19 characters), then the UTC offset `+00:00`.
pub open spec fn is_rfc3339_utc_text(s: Seq<char>) -> bool {
    &&& s.len() >= 25
    &&& s[s.len() - 6] == '+'
    &&& s[s.len() - 5] == '0'
    &&& s[s.len() - 4] == '0'
    &&& s[s.len() - 3] == ':'
    &&& s[s.len() - 2] == '0'
    &&& s[s.len() - 1] == '0'
}

/// The current time: `chrono::Utc::now().to_rfc3339()`. `chrono` writes a
/// year of at least four digits (the clock is never before 1970, where
/// `Utc::now` panics), `-MM-DDTHH:MM:SS`, an optional fraction, and the
/// offset, which for UTC is `+00:00` (`allow_zulu` is off). Which time it is
/// depends on the clock and is not claimed.
#[verifier::external_body]
pub(crate) fn now_rfc3339() -> (r: String)
    ensures
        is_rfc3339_utc_text(r@),
{
    chrono::Utc::now().to_rfc3339()
}

/// The default title of a new conversation:
/// `chrono::Utc::now().format("Chat %Y-%m-%d %H:%M")`. The format begins with
/// the literal text `Chat `, which `chrono` copies to the output; the rest
/// depends on the clock and is not claimed.
#[verifier::external_body]
pub(crate) fn now_chat_title() -> (r: String)
    ensures
        has_prefix(r@, "Chat "@),
{
    chrono::Utc::now().format("Chat %Y-%m-%d %H:%M").to_string()
}

/// Whether `password_auth::verify_password(password, hash)` succeeds: the
/// hash parses as a PHC string and the password verifies against it.
pub uninterp spec fn password_verifies(password: Seq<char>, hash: Seq<char>) -> bool;

/// `password_auth::verify_password`, as a boolean: `true` exactly when the
/// crate returns `Ok(())`.
#[verifier::external_body]
pub(crate) fn verify_password(password: &str, hash: &str) -> (r: bool)
    ensures
        r == password_verifies(password@, hash@),
{
    password_auth::verify_password(password, hash).is_ok()
}

/// `password_auth::generate_hash`: a salted hash of `password` (random salt,
/// so the hash itself is not claimed) against which the password verifies.
/// The crate panics when hashing fails, which for its Argon2 default happens
/// only for passwords longer than `u32::MAX` bytes (`MAX_PWD_LEN`).
#[verifier::external_body]
pub(crate) fn generate_hash(password: &str) -> (r: String)
    requires
        password.spec_bytes().len() <= 0xFFFF_FFFF,
    ensures
        password_verifies(password@, r@),
{
    password_auth::generate_hash(password)
}

} // verus!
