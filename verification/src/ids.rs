//! Connection and room identifiers.
//!
//! Identifiers are 128-bit values. Their textual form (in system notices and
//! in whisper targets) and the parsing of candidate tokens are delegated to
//! the `uuid` crate; the coordinator's logic only ever sees the `u128`.

use vstd::prelude::*;

verus! {

/// The canonical textual rendering of an identifier, as the `uuid` crate's
/// `Display` implementation writes it (lowercase hyphenated form). The
/// rendering is a function of the identifier alone.
pub uninterp spec fn uuid_text(id: u128) -> Seq<char>;

/// What `uuid::Uuid::parse_str` makes of a candidate identifier token:
/// `Some` of the 128-bit value for any accepted format, `None` otherwise.
/// The outcome is a function of the characters alone.
pub uninterp spec fn uuid_parse(s: Seq<char>) -> Option<u128>;

/// Relies on `uuid::Uuid::from_u128` and `uuid::Uuid`'s `Display` impl:
/// renders the identifier as text, a function of `id` alone.
#[verifier::external_body]
pub(crate) fn uuid_string(id: u128) -> (r: String)
    ensures
        r@ == uuid_text(id),
{
    format!("{}", uuid::Uuid::from_u128(id))
}

/// Relies on `uuid::Uuid::parse_str` and `uuid::Uuid::as_u128`: parses an
/// identifier token, a function of the characters of `s` alone.
#[verifier::external_body]
pub(crate) fn parse_conn_id(s: &str) -> (r: Option<u128>)
    ensures
        r == uuid_parse(s@),
{
    match uuid::Uuid::parse_str(s) {
        Ok(u) => Some(u.as_u128()),
        Err(_) => None,
    }
}

} // verus!
