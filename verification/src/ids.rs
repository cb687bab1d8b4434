//! Identifiers and wall-clock time, from the `ulid` and `chrono` crates.

use vstd::prelude::*;

verus! {

/// Canonical 26-character Crockford base32 text of a ULID value.
pub uninterp spec fn ulid_text(value: u128) -> Seq<char>;

/// Value of a ULID text, if it decodes.
pub uninterp spec fn ulid_value(text: Seq<char>) -> Option<u128>;

/// A fresh ULID value (`ulid::Ulid::new`): current time plus random bits,
/// so nothing is stated about it.
#[verifier::external_body]
pub(crate) fn fresh_ulid() -> (u: u128) {
    ulid::Ulid::new().0
}

/// Text of a ULID value (`ulid::Ulid::to_string`), named [`ulid_text`].
#[verifier::external_body]
pub(crate) fn ulid_to_string(value: u128) -> (s: String)
    ensures
        s@ == ulid_text(value),
{
    ulid::Ulid(value).to_string()
}

/// Why a ULID text did not decode.
#[derive(Debug, Clone, Copy, PartialEq, Eq, Structural)]
pub enum UlidError {
    /// The text is not 26 bytes long.
    InvalidLength,
    /// A byte is not a Crockford base32 digit.
    InvalidChar,
}

/// Display text of a decode error, as the `ulid` crate writes it.
pub open spec fn ulid_error_text(e: UlidError) -> Seq<char> {
    match e {
        UlidError::InvalidLength => "invalid length"@,
        UlidError::InvalidChar => "invalid character"@,
    }
}

impl UlidError {
    /// Display text (`"invalid length"`, `"invalid character"`).
    pub fn as_str(&self) -> (s: String)
        ensures
            s@ == ulid_error_text(*self),
    {
        match self {
            UlidError::InvalidLength => crate::text::string_from_literal("invalid length"),
            UlidError::InvalidChar => crate::text::string_from_literal("invalid character"),
        }
    }
}

/// Decode a ULID text (`ulid::Ulid::from_string`), named [`ulid_value`].
/// The crate refuses a text that is not 26 bytes long with `InvalidLength`
/// and any other text it cannot decode with `InvalidChar`.
#[verifier::external_body]
pub(crate) fn parse_ulid(text: &str) -> (r: Result<u128, UlidError>)
    ensures
        match r {
            Ok(v) => ulid_value(text@) == Some(v),
            Err(_) => ulid_value(text@) is None,
        },
        (r == Err::<u128, UlidError>(UlidError::InvalidLength)) <==> vstd::utf8::encode_utf8(text@).len()
            != 26,
{
    match ulid::Ulid::from_string(text) {
        Ok(u) => Ok(u.0),
        Err(ulid::DecodeError::InvalidLength) => Err(UlidError::InvalidLength),
        Err(ulid::DecodeError::InvalidChar) => Err(UlidError::InvalidChar),
    }
}

/// Current time in milliseconds since the Unix epoch
/// (`chrono::Utc::now().timestamp_millis()`); nothing is stated about it.
#[verifier::external_body]
pub(crate) fn now_millis() -> (t: i64) {
    chrono::Utc::now().timestamp_millis()
}

/// Current time as RFC 3339 text (`chrono::Utc::now().to_rfc3339()`);
/// nothing is stated about it.
#[verifier::external_body]
pub(crate) fn now_rfc3339() -> (t: String) {
    chrono::Utc::now().to_rfc3339()
}

/// What `chrono` makes of a text as a UTC date-time
/// (`str::parse::<chrono::DateTime<chrono::Utc>>`): the instant as seconds
/// and nanoseconds since the Unix epoch, or the parse error's message.
pub uninterp spec fn utc_parse(text: Seq<char>) -> Result<(i64, u32), Seq<char>>;

/// Parse a UTC date-time (`str::parse::<chrono::DateTime<chrono::Utc>>`),
/// named [`utc_parse`].
#[verifier::external_body]
pub(crate) fn parse_utc(text: &str) -> (r: Result<(i64, u32), String>)
    ensures
        match r {
            Ok(v) => utc_parse(text@) == Ok::<(i64, u32), Seq<char>>(v),
            Err(m) => utc_parse(text@) == Err::<(i64, u32), Seq<char>>(m@),
        },
{
    match text.parse::<chrono::DateTime<chrono::Utc>>() {
        Ok(t) => Ok((t.timestamp(), t.timestamp_subsec_nanos())),
        Err(e) => Err(e.to_string()),
    }
}

/// A fresh ULID as text.
pub fn fresh_ulid_string() -> (s: String)
    ensures
        exists|u: u128| s@ == ulid_text(u),
{
    let u = fresh_ulid();
    ulid_to_string(u)
}

} // verus!
