//! Identifiers in text form.
//!
//! Inside the library an identifier is a `u128`. At the edges it is the text
//! of a UUID, which the `uuid` crate reads and writes.

use vstd::prelude::*;
use vstd::string::StrSliceExecFns;
use crate::errors::ErrorKind;
use crate::text::same_text;

verus! {

/// What `uuid::Uuid::parse_str` makes of a text: the value of the UUID that
/// the text denotes, or nothing where the text denotes none.
pub uninterp spec fn uuid_parsed(text: Seq<char>) -> Option<u128>;

/// The text that `uuid::Uuid` displays for a value.
pub uninterp spec fn uuid_text(id: u128) -> Seq<char>;

/// `uuid::Uuid::parse_str`, followed by `Uuid::as_u128`. The result depends
/// on the text alone.
#[verifier::external_body]
fn parse_uuid(text: &str) -> (id: Option<u128>)
    ensures
        id == uuid_parsed(text@),
{
    uuid::Uuid::parse_str(text).ok().map(|u| u.as_u128())
}

/// `Uuid::from_u128`, followed by the display of `uuid::Uuid`. The result
/// depends on the value alone.
#[verifier::external_body]
fn display_uuid(id: u128) -> (text: String)
    ensures
        text@ == uuid_text(id),
{
    uuid::Uuid::from_u128(id).to_string()
}

/// Whether a value is a UUID of version 4: the version field holds 4 and
/// the variant field begins with the bits 1 and 0. The other 122 bits are
/// free.
pub open spec fn is_version_4(id: u128) -> bool {
    id & 0xF000_C000_0000_0000_0000u128 == 0x4000_8000_0000_0000_0000u128
}

/// `uuid::Uuid::new_v4`, followed by `Uuid::as_u128`: a random identifier.
/// Whatever is drawn, the version and variant fields are set as version 4
/// has them; nothing is known of the other bits.
#[verifier::external_body]
fn random_uuid() -> (id: u128)
    ensures
        is_version_4(id),
{
    uuid::Uuid::new_v4().as_u128()
}

/// Reads an identifier.
pub fn parse_id(text: &str) -> (id: Option<u128>)
    ensures
        id == uuid_parsed(text@),
{
    parse_uuid(text)
}

/// Writes an identifier.
pub fn format_id(id: u128) -> (text: String)
    ensures
        text@ == uuid_text(id),
{
    display_uuid(id)
}

/// Makes up a new identifier at random: a UUID of version 4.
pub fn new_id() -> (id: u128)
    ensures
        is_version_4(id),
{
    random_uuid()
}

/// Length of the word that introduces a bearer token, the blank included.
pub const BEARER_PREFIX_LEN: usize = 7;

/// The token of an `Authorization` header: what follows `Bearer `. A header
/// that begins otherwise has none.
pub open spec fn spec_bearer_token(header: Seq<char>) -> Option<Seq<char>> {
    if header.len() >= 7 && header.subrange(0, 7) == "Bearer "@ {
        Some(header.subrange(7, header.len() as int))
    } else {
        None
    }
}

/// Takes the token out of an `Authorization` header.
pub fn bearer_token(header: &str) -> (token: Option<&str>)
    ensures
        match token {
            Some(t) => spec_bearer_token(header@) == Some(t@),
            None => spec_bearer_token(header@) is None,
        },
{
    let n = header.unicode_len();
    if n < BEARER_PREFIX_LEN {
        return None;
    }
    let prefix = header.substring_char(0, BEARER_PREFIX_LEN);
    if !same_text(prefix, "Bearer ") {
        return None;
    }
    Some(header.substring_char(BEARER_PREFIX_LEN, n))
}

/// What a request is answered whose token was read as `parsed`: the user,
/// or a refusal where the token is no identifier.
pub fn user_from_parsed(parsed: Option<u128>) -> (result: Result<u128, ErrorKind>)
    ensures
        result == match parsed {
            Some(id) => Ok::<u128, ErrorKind>(id),
            None => Err::<u128, ErrorKind>(ErrorKind::Unauthorized),
        },
{
    match parsed {
        Some(id) => Ok(id),
        None => Err(ErrorKind::Unauthorized),
    }
}

/// The user that a request's `Authorization` header names. A request
/// without the header, with a header that carries no bearer token, or with
/// a token that is no identifier is refused.
pub open spec fn spec_user_of_header(header: Option<Seq<char>>) -> Result<u128, ErrorKind> {
    match header {
        None => Err(ErrorKind::Unauthorized),
        Some(h) => match spec_bearer_token(h) {
            None => Err(ErrorKind::Unauthorized),
            Some(t) => match uuid_parsed(t) {
                Some(id) => Ok(id),
                None => Err(ErrorKind::Unauthorized),
            },
        },
    }
}

/// Finds out who sent a request from its `Authorization` header.
pub fn extract_user_id_from_headers(authorization: Option<&str>) -> (result: Result<
    u128,
    ErrorKind,
>)
    ensures
        result == spec_user_of_header(
            match authorization {
                Some(h) => Some(h@),
                None => None,
            },
        ),
{
    let header = match authorization {
        Some(h) => h,
        None => {
            return Err(ErrorKind::Unauthorized);
        },
    };
    match bearer_token(header) {
        Some(token) => user_from_parsed(parse_uuid(token)),
        None => Err(ErrorKind::Unauthorized),
    }
}

} // verus!
