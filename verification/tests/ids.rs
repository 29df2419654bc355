use messaging_core::errors::ErrorKind;
use messaging_core::ids::{
    bearer_token, extract_user_id_from_headers, format_id, new_id, parse_id, user_from_parsed,
};

const ID: u128 = 0x550e8400_e29b_41d4_a716_446655440000;
const TEXT: &str = "550e8400-e29b-41d4-a716-446655440000";

#[test]
fn ids_are_read_and_written_as_uuids() {
    assert_eq!(parse_id(TEXT), Some(ID));
    assert_eq!(parse_id("550E8400E29B41D4A716446655440000"), Some(ID));
    assert_eq!(parse_id("00000000-0000-0000-0000-000000000000"), Some(0));
    assert_eq!(parse_id("550e8400-e29b-41d4-a716"), None);
    assert_eq!(parse_id(""), None);
    assert_eq!(parse_id("zz0e8400-e29b-41d4-a716-446655440000"), None);
    assert_eq!(format_id(ID), TEXT);
    assert_eq!(format_id(0), "00000000-0000-0000-0000-000000000000");
    assert_eq!(format_id(u128::MAX), "ffffffff-ffff-ffff-ffff-ffffffffffff");
}

#[test]
fn random_ids_are_version_four_and_differ() {
    let a = new_id();
    let b = new_id();
    assert_ne!(a, b);
    assert_eq!((a >> 76) & 0xF, 4);
    assert_eq!((a >> 62) & 0x3, 2);
    assert_eq!((b >> 76) & 0xF, 4);
    assert_eq!((b >> 62) & 0x3, 2);
    assert_eq!(format_id(a).as_bytes()[14], b'4');
    assert_eq!(parse_id(&format_id(a)), Some(a));
}

#[test]
fn bearer_token_is_what_follows_the_prefix() {
    assert_eq!(bearer_token("Bearer abc"), Some("abc"));
    assert_eq!(bearer_token("Bearer "), Some(""));
    assert_eq!(bearer_token("Bearer"), None);
    assert_eq!(bearer_token("bearer abc"), None);
    assert_eq!(bearer_token("Basic abc"), None);
    assert_eq!(bearer_token(""), None);
    assert_eq!(bearer_token("Bearer žluťoučký"), Some("žluťoučký"));
}

#[test]
fn user_is_taken_from_the_authorization_header() {
    let header = format!("Bearer {}", TEXT);
    assert_eq!(extract_user_id_from_headers(Some(&header)), Ok(ID));
    assert_eq!(extract_user_id_from_headers(None), Err(ErrorKind::Unauthorized));
    assert_eq!(extract_user_id_from_headers(Some(TEXT)), Err(ErrorKind::Unauthorized));
    assert_eq!(extract_user_id_from_headers(Some("Bearer nobody")), Err(ErrorKind::Unauthorized));
    assert_eq!(user_from_parsed(Some(3)), Ok(3));
    assert_eq!(user_from_parsed(None), Err(ErrorKind::Unauthorized));
}
