use messaging_core::auth::{
    constant_time_eq, AuthAuthority, AuthConfig, RegisterRequest, TokenClaims, UserDirectory,
    UserRecord,
};
use messaging_core::errors::ErrorKind;
use messaging_core::sessions::{Selector, SessionStore};

const ALICE: u128 = 1;
const BOB: u128 = 2;
const DAY30: i64 = 2_592_000;

fn h(tag: u8) -> Vec<u8> {
    vec![tag; 32]
}

fn store_with_login() -> SessionStore {
    let mut s = SessionStore::new();
    assert_eq!(s.create_session(10, ALICE, "d1".to_string(), h(1), h(2), 1_000, DAY30), Ok(()));
    s
}

#[test]
fn login_creates_a_session_that_ends_after_thirty_days() {
    let s = store_with_login();
    assert_eq!(s.len(), 1);
    let session = s.session(10).unwrap();
    assert_eq!(session.user_id, ALICE);
    assert_eq!(session.device_id, "d1");
    assert_eq!(session.created_at, 1_000);
    assert_eq!(session.expires_at, 1_000 + 2_592_000);
    assert_eq!(session.revoked_at, None);
    assert_eq!(session.access_token_hash, h(1));
    assert!(s.session(11).is_none());
}

#[test]
fn second_login_on_a_device_revokes_the_first() {
    let mut s = store_with_login();
    assert_eq!(s.create_session(11, ALICE, "d1".to_string(), h(3), h(4), 2_000, DAY30), Ok(()));
    assert_eq!(s.session(10).unwrap().revoked_at, Some(2_000));
    assert_eq!(s.session(11).unwrap().revoked_at, None);
    // another device and another user are left alone
    assert_eq!(s.create_session(12, ALICE, "d2".to_string(), h(5), h(6), 3_000, DAY30), Ok(()));
    assert_eq!(s.create_session(13, BOB, "d1".to_string(), h(7), h(8), 4_000, DAY30), Ok(()));
    assert_eq!(s.session(11).unwrap().revoked_at, None);
    assert_eq!(s.session(12).unwrap().revoked_at, None);
    let active: Vec<u128> = s
        .list_sessions(ALICE)
        .iter()
        .filter(|x| x.revoked_at.is_none())
        .map(|x| x.id)
        .collect();
    assert_eq!(active, vec![11, 12]);
    assert_eq!(s.list_sessions(ALICE).len(), 3);
    assert_eq!(s.list_sessions(BOB).len(), 1);
    assert_eq!(s.list_sessions(99).len(), 0);
}

#[test]
fn create_session_reports_conflicts_and_bad_lifetimes() {
    let mut s = store_with_login();
    assert_eq!(
        s.create_session(10, BOB, "x".to_string(), h(9), h(9), 5, DAY30),
        Err(ErrorKind::Conflict)
    );
    assert_eq!(
        s.create_session(20, BOB, "x".to_string(), h(9), h(2), 5, DAY30),
        Err(ErrorKind::Conflict)
    );
    assert_eq!(
        s.create_session(20, BOB, "x".to_string(), h(9), h(9), 5, 0),
        Err(ErrorKind::Validation)
    );
    assert_eq!(
        s.create_session(20, BOB, "x".to_string(), h(9), h(9), i64::MAX, 1),
        Err(ErrorKind::Validation)
    );
    assert_eq!(s.check_create(20, &h(9), 5, DAY30), Ok(()));
    assert_eq!(s.check_create(10, &h(9), 5, DAY30), Err(ErrorKind::Conflict));
    assert_eq!(s.len(), 1);
    assert_eq!(s.session(10).unwrap().revoked_at, None);
}

#[test]
fn refresh_rotation_and_replay() {
    let mut s = store_with_login();
    // R1 -> R2
    assert_eq!(s.rotate_session_tokens(&h(2), 11, h(3), h(4), 2_000, DAY30), Ok(()));
    assert_eq!(s.session(10).unwrap().revoked_at, Some(2_000));
    let rotated = s.session(11).unwrap();
    assert_eq!(rotated.user_id, ALICE);
    assert_eq!(rotated.device_id, "d1");
    assert_eq!(rotated.refresh_token_hash, h(4));
    assert_eq!(rotated.access_token_hash, h(3));
    assert_eq!(rotated.created_at, 2_000);
    assert_eq!(rotated.expires_at, 2_000 + DAY30);
    assert_eq!(rotated.revoked_at, None);
    assert_eq!(s.get_session_by_refresh_hash(&h(2)).unwrap().id, 10);
    assert_eq!(s.get_session_by_refresh_hash(&h(4)).unwrap().id, 11);
    assert!(s.get_session_by_refresh_hash(&h(99)).is_none());
    // replay of R1: refused, and the session of d1 is revoked
    assert_eq!(
        s.rotate_session_tokens(&h(2), 12, h(5), h(6), 3_000, DAY30),
        Err(ErrorKind::Unauthorized)
    );
    assert_eq!(s.session(11).unwrap().revoked_at, Some(3_000));
    assert!(s.session(12).is_none());
    // the first revocation keeps its instant
    assert_eq!(s.session(10).unwrap().revoked_at, Some(2_000));
    // access2 is unusable on the next request
    assert_eq!(s.logout(h(3), 3_001), Err(ErrorKind::Unauthorized));
    // and R2 is dead as well
    assert_eq!(
        s.rotate_session_tokens(&h(4), 13, h(7), h(8), 3_002, DAY30),
        Err(ErrorKind::Unauthorized)
    );
}

#[test]
fn reuse_revokes_every_session_of_the_user_only() {
    let mut s = store_with_login();
    s.create_session(20, ALICE, "d2".to_string(), h(11), h(12), 1_000, DAY30).unwrap();
    s.create_session(30, BOB, "d9".to_string(), h(21), h(22), 1_000, DAY30).unwrap();
    s.rotate_session_tokens(&h(2), 11, h(3), h(4), 2_000, DAY30).unwrap();
    assert_eq!(
        s.rotate_session_tokens(&h(2), 12, h(5), h(6), 3_000, DAY30),
        Err(ErrorKind::Unauthorized)
    );
    assert_eq!(s.session(11).unwrap().revoked_at, Some(3_000));
    assert_eq!(s.session(20).unwrap().revoked_at, Some(3_000));
    assert_eq!(s.session(30).unwrap().revoked_at, None);
}

#[test]
fn refresh_refuses_unknown_expired_and_clashing_tokens() {
    let mut s = store_with_login();
    assert_eq!(
        s.rotate_session_tokens(&h(77), 11, h(3), h(4), 2_000, DAY30),
        Err(ErrorKind::Unauthorized)
    );
    assert_eq!(
        s.rotate_session_tokens(&h(2), 11, h(3), h(4), 1_000 + DAY30, DAY30),
        Err(ErrorKind::Unauthorized)
    );
    assert_eq!(
        s.rotate_session_tokens(&h(2), 10, h(3), h(4), 2_000, DAY30),
        Err(ErrorKind::Conflict)
    );
    assert_eq!(
        s.rotate_session_tokens(&h(2), 11, h(3), h(2), 2_000, DAY30),
        Err(ErrorKind::Conflict)
    );
    assert_eq!(
        s.rotate_session_tokens(&h(2), 11, h(3), h(4), 2_000, -1),
        Err(ErrorKind::Validation)
    );
    assert_eq!(s.len(), 1);
    assert_eq!(s.session(10).unwrap().revoked_at, None);
    // one second before the end the token is still good
    assert_eq!(s.rotate_session_tokens(&h(2), 11, h(3), h(4), 999 + DAY30, DAY30), Ok(()));
}

#[test]
fn revoke_is_for_owners_and_administrators() {
    let mut s = store_with_login();
    assert_eq!(s.revoke_session(99, ALICE, false, 5), Err(ErrorKind::NotFound));
    assert_eq!(s.revoke_session(10, BOB, false, 5), Err(ErrorKind::Forbidden));
    assert_eq!(s.session(10).unwrap().revoked_at, None);
    assert_eq!(s.revoke_session(10, BOB, true, 6), Ok(()));
    assert_eq!(s.session(10).unwrap().revoked_at, Some(6));
    // revoked-at, once set, stays
    assert_eq!(s.revoke_session(10, ALICE, false, 7), Ok(()));
    assert_eq!(s.session(10).unwrap().revoked_at, Some(6));
    assert_eq!(s.len(), 1);
}

#[test]
fn logout_revokes_the_session_of_the_token() {
    let mut s = store_with_login();
    assert_eq!(s.logout(h(50), 5), Err(ErrorKind::Unauthorized));
    assert_eq!(s.logout(h(1), 6), Ok(()));
    assert_eq!(s.session(10).unwrap().revoked_at, Some(6));
    assert_eq!(s.logout(h(1), 7), Err(ErrorKind::Unauthorized));
    assert_eq!(s.revoke_matching(&Selector::User(ALICE), 8), 0);
}

#[test]
fn revoke_matching_counts_what_it_revokes() {
    let mut s = store_with_login();
    s.create_session(20, ALICE, "d2".to_string(), h(11), h(12), 1_000, DAY30).unwrap();
    s.create_session(30, BOB, "d1".to_string(), h(21), h(22), 1_000, DAY30).unwrap();
    assert_eq!(s.revoke_matching(&Selector::Device(ALICE, "d2".to_string()), 9), 1);
    assert_eq!(s.revoke_matching(&Selector::User(ALICE), 10), 1);
    assert_eq!(s.revoke_matching(&Selector::Session(30), 11), 1);
    assert_eq!(s.revoke_matching(&Selector::AccessToken(h(21)), 12), 0);
    assert_eq!(s.session(20).unwrap().revoked_at, Some(9));
    assert_eq!(s.session(10).unwrap().revoked_at, Some(10));
}

fn request(name: &str, email: &str) -> RegisterRequest {
    RegisterRequest {
        username: name.to_string(),
        email: email.to_string(),
        password: "correct horse".to_string(),
        public_key: "cHVibGlj".to_string(),
        dh_public_key: "ZGg=".to_string(),
    }
}

fn authority_with_alice() -> AuthAuthority {
    let mut a = AuthAuthority::new(AuthConfig::standard(), b"pepper".to_vec());
    let grant = a
        .register(
            &request("alice", "alice@example.org"),
            ALICE,
            vec![7; 16],
            "d1".to_string(),
            100,
            b"access1",
            b"refresh1",
            1_000,
        )
        .unwrap();
    assert_eq!(grant.user_id, ALICE);
    assert_eq!(grant.session_id, 100);
    assert_eq!(grant.expires_in, 900);
    a
}

#[test]
fn standard_config_has_the_documented_lifetimes() {
    let c = AuthConfig::standard();
    assert_eq!(c.access_ttl_secs, 15 * 60);
    assert_eq!(c.refresh_ttl_secs, 30 * 24 * 3600);
    assert_eq!(c.clock_skew_secs, 30);
}

#[test]
fn register_creates_user_and_first_session() {
    let a = authority_with_alice();
    assert_eq!(a.users().len(), 1);
    assert_eq!(a.sessions().len(), 1);
    let user = a.users().user(ALICE).unwrap();
    assert_eq!(user.username, "alice");
    assert!(user.is_active);
    assert!(!user.is_admin);
    assert_eq!(user.salt, vec![7; 16]);
    assert_eq!(user.public_key, "cHVibGlj");
    // the password is stored as its Argon2id hash
    assert_eq!(
        user.password_hash,
        vec![
            113, 50, 230, 166, 2, 139, 122, 187, 148, 235, 54, 190, 183, 103, 20, 103, 119, 205,
            124, 117, 66, 98, 17, 168, 39, 200, 167, 165, 197, 13, 115, 7
        ]
    );
    let session = a.sessions().session(100).unwrap();
    assert_eq!(session.user_id, ALICE);
    assert_eq!(session.expires_at, 1_000 + DAY30);
    // tokens are stored as keyed hashes, never as they are
    assert_eq!(
        session.access_token_hash,
        vec![
            6, 108, 181, 230, 133, 177, 228, 119, 84, 16, 52, 166, 124, 129, 241, 2, 11, 138, 246,
            10, 207, 115, 25, 211, 88, 105, 142, 86, 11, 180, 48, 170
        ]
    );
    assert_eq!(a.hash_token(b"access1"), session.access_token_hash);
    assert_eq!(a.hash_token(b"refresh1"), session.refresh_token_hash);
    assert_ne!(session.refresh_token_hash, b"refresh1".to_vec());
    let other = AuthAuthority::new(AuthConfig::standard(), b"salt and pepper".to_vec());
    assert_ne!(other.hash_token(b"access1"), session.access_token_hash);
}

fn try_register(
    a: &mut AuthAuthority,
    request: &RegisterRequest,
    salt: Vec<u8>,
    session: u128,
) -> Result<u128, ErrorKind> {
    a.register(request, BOB, salt, "d".to_string(), session, b"access-b", b"refresh-b", 5)
        .map(|grant| grant.user_id)
}

#[test]
fn register_conflicts_and_validation() {
    let mut a = authority_with_alice();
    let salt = vec![0u8; 16];
    assert_eq!(
        try_register(&mut a, &request("alice", "other@example.org"), salt.clone(), 101),
        Err(ErrorKind::Conflict)
    );
    assert_eq!(
        try_register(&mut a, &request("alicia", "alice@example.org"), salt.clone(), 101),
        Err(ErrorKind::Conflict)
    );
    assert_eq!(
        try_register(&mut a, &request("al", "al@example.org"), salt.clone(), 101),
        Err(ErrorKind::Validation)
    );
    assert_eq!(
        try_register(&mut a, &request("bob", "not an address"), salt.clone(), 101),
        Err(ErrorKind::Validation)
    );
    assert_eq!(
        try_register(&mut a, &request("bob", "bob@example.org"), vec![0; 15], 101),
        Err(ErrorKind::Validation)
    );
    let mut short_password = request("bob", "bob@example.org");
    short_password.password = "1234567".to_string();
    assert_eq!(short_password.validate(1024), Err(ErrorKind::Validation));
    let mut long_key = request("bob", "bob@example.org");
    long_key.public_key = "k".repeat(1025);
    assert_eq!(long_key.validate(1024), Err(ErrorKind::Validation));
    assert_eq!(request("bob", "bob@example.org").validate(1024), Ok(()));
    assert_eq!(request("bob", "bob@").validate(1024), Err(ErrorKind::Validation));
    assert_eq!(request("bob", "").validate(1024), Err(ErrorKind::Validation));
    assert_eq!(request("bob", "bob@example.org").validate_form(false, 1024), Err(ErrorKind::Validation));
    assert_eq!(request("bob", "nothing").validate_form(true, 1024), Ok(()));
    // a session id that is taken keeps the user from being created
    assert_eq!(
        try_register(&mut a, &request("bob", "bob@example.org"), salt.clone(), 100),
        Err(ErrorKind::Conflict)
    );
    assert_eq!(a.users().len(), 1);
    assert_eq!(a.sessions().len(), 1);
    assert_eq!(try_register(&mut a, &request("bob", "bob@example.org"), salt, 101), Ok(BOB));
    assert_eq!(a.users().len(), 2);
}

#[test]
fn login_checks_identifier_state_and_password() {
    let mut a = authority_with_alice();
    let unknown = a.login(
        &"nobody".to_string(),
        "correct horse",
        "d1".to_string(),
        101,
        b"access2",
        b"refresh2",
        2_000,
    );
    assert_eq!(unknown, Err(ErrorKind::Unauthorized));
    let wrong = a.login(
        &"alice".to_string(),
        "correct house",
        "d1".to_string(),
        101,
        b"access2",
        b"refresh2",
        2_000,
    );
    assert_eq!(wrong, Err(ErrorKind::Unauthorized));
    assert_eq!(a.sessions().len(), 1);
    let by_email = a
        .login(
            &"alice@example.org".to_string(),
            "correct horse",
            "d1".to_string(),
            101,
            b"access2",
            b"refresh2",
            2_000,
        )
        .unwrap();
    assert_eq!(by_email.user_id, ALICE);
    assert_eq!(by_email.session_id, 101);
    assert_eq!(by_email.expires_in, 900);
    assert_eq!(a.sessions().session(100).unwrap().revoked_at, Some(2_000));
    assert_eq!(a.sessions().session(101).unwrap().revoked_at, None);
    assert_eq!(a.users().user(ALICE).unwrap().last_seen, Some(2_000));
    assert_eq!(a.authorize(101, b"access2", 2_001), Ok(ALICE));
    assert_eq!(a.authorize(101, b"access1", 2_001), Err(ErrorKind::Unauthorized));
    assert_eq!(a.authorize(100, b"access1", 2_001), Err(ErrorKind::Unauthorized));
    assert_eq!(a.authorize(101, b"access2", 2_000 + DAY30), Err(ErrorKind::Unauthorized));
}

#[test]
fn deactivated_user_is_forbidden() {
    let mut d = UserDirectory::new();
    let record = UserRecord {
        id: ALICE,
        username: "alice".to_string(),
        email: "a@example.org".to_string(),
        password_hash: vec![
            113, 50, 230, 166, 2, 139, 122, 187, 148, 235, 54, 190, 183, 103, 20, 103, 119, 205,
            124, 117, 66, 98, 17, 168, 39, 200, 167, 165, 197, 13, 115, 7,
        ],
        salt: vec![7; 16],
        public_key: String::new(),
        dh_public_key: String::new(),
        is_active: true,
        is_admin: false,
        created_at: 0,
        last_seen: None,
    };
    let hash = record.password_hash.clone();
    assert_eq!(d.create_user(record), Ok(()));
    assert_eq!(d.check_login(&"alice".to_string(), &hash), Ok(0));
    assert_eq!(d.check_login(&"alice".to_string(), &h(2)), Err(ErrorKind::Unauthorized));
    assert_eq!(d.check_password(&"alice".to_string(), "correct horse"), Ok(0));
    assert_eq!(d.check_password(&"a@example.org".to_string(), "correct horse"), Ok(0));
    assert_eq!(
        d.check_password(&"alice".to_string(), "correct horse "),
        Err(ErrorKind::Unauthorized)
    );
    assert_eq!(d.check_password(&"bob".to_string(), "correct horse"), Err(ErrorKind::Unauthorized));
    assert!(d.set_active(ALICE, false));
    assert!(!d.set_active(BOB, false));
    assert_eq!(d.check_login(&"alice".to_string(), &hash), Err(ErrorKind::Forbidden));
    assert_eq!(d.check_login(&"alice".to_string(), &h(2)), Err(ErrorKind::Forbidden));
    assert_eq!(d.check_password(&"alice".to_string(), "correct horse"), Err(ErrorKind::Forbidden));
    assert_eq!(d.check_login(&"bob".to_string(), &hash), Err(ErrorKind::Unauthorized));
    assert!(d.find_user_by_identifier(&"a@example.org".to_string()).is_some());
    assert!(d.find_user_by_identifier(&"b@example.org".to_string()).is_none());
    assert!(UserDirectory::verify_credential(d.user(ALICE).unwrap(), &hash));
    assert!(!UserDirectory::verify_credential(d.user(ALICE).unwrap(), &h(2)));
}

#[test]
fn authority_refresh_revoke_and_logout() {
    let mut a = authority_with_alice();
    let grant = a.refresh(b"refresh1", 101, b"access2", b"refresh2", 2_000).unwrap();
    assert_eq!(grant.user_id, ALICE);
    assert_eq!(grant.session_id, 101);
    assert_eq!(
        a.refresh(b"refresh1", 102, b"access3", b"refresh3", 2_001),
        Err(ErrorKind::Unauthorized)
    );
    assert_eq!(a.sessions().session(101).unwrap().revoked_at, Some(2_001));
    let login = a.login(
        &"alice".to_string(),
        "correct horse",
        "d1".to_string(),
        103,
        b"access4",
        b"refresh4",
        3_000,
    );
    assert!(login.is_ok());
    assert_eq!(a.revoke(103, 999, 3_001), Err(ErrorKind::Unauthorized));
    assert_eq!(a.revoke(555, ALICE, 3_001), Err(ErrorKind::NotFound));
    assert_eq!(a.revoke(103, ALICE, 3_002), Ok(()));
    assert_eq!(a.sessions().session(103).unwrap().revoked_at, Some(3_002));
    assert_eq!(a.logout(b"access4", 3_003), Err(ErrorKind::Unauthorized));
    a.login(
        &"alice".to_string(),
        "correct horse",
        "d1".to_string(),
        104,
        b"access5",
        b"refresh5",
        4_000,
    )
    .unwrap();
    assert_eq!(a.logout(b"refresh5", 4_001), Err(ErrorKind::Unauthorized));
    assert_eq!(a.logout(b"access5", 4_001), Ok(()));
    assert_eq!(a.sessions().session(104).unwrap().revoked_at, Some(4_001));
}

#[test]
fn claims_are_good_within_the_skew() {
    let claims = TokenClaims::issue(ALICE, 100, "d1".to_string(), 1_000, 900).unwrap();
    assert_eq!(claims.sub, ALICE);
    assert_eq!(claims.session_id, 100);
    assert_eq!(claims.device_id, "d1");
    assert_eq!(claims.iat, 1_000);
    assert_eq!(claims.exp, 1_900);
    assert_eq!(claims.validate(1_000, 30), Ok(()));
    assert_eq!(claims.validate(970, 30), Ok(()));
    assert_eq!(claims.validate(969, 30), Err(ErrorKind::Unauthorized));
    assert_eq!(claims.validate(1_930, 30), Ok(()));
    assert_eq!(claims.validate(1_931, 30), Err(ErrorKind::Unauthorized));
    assert_eq!(claims.validate(1_901, 0), Err(ErrorKind::Unauthorized));
    assert!(TokenClaims::issue(ALICE, 100, "d1".to_string(), i64::MAX, 1).is_none());
    assert!(TokenClaims::issue(ALICE, 100, "d1".to_string(), 0, -1).is_none());
    let edge = TokenClaims::issue(ALICE, 100, "d1".to_string(), i64::MAX - 10, 10).unwrap();
    assert_eq!(edge.validate(i64::MAX, 30), Ok(()));
}

#[test]
fn constant_time_eq_compares_bytes() {
    assert!(constant_time_eq(&vec![], &vec![]));
    assert!(constant_time_eq(&vec![1, 2, 3], &vec![1, 2, 3]));
    assert!(!constant_time_eq(&vec![1, 2, 3], &vec![1, 2, 4]));
    assert!(!constant_time_eq(&vec![0, 2, 3], &vec![1, 2, 3]));
    assert!(!constant_time_eq(&vec![1, 2], &vec![1, 2, 3]));
}

#[test]
fn error_kinds_have_stable_names_and_statuses() {
    assert_eq!(ErrorKind::Validation.name(), "Validation");
    assert_eq!(ErrorKind::Validation.status(), 400);
    assert_eq!(ErrorKind::Unauthorized.status(), 401);
    assert_eq!(ErrorKind::Forbidden.status(), 403);
    assert_eq!(ErrorKind::NotFound.status(), 404);
    assert_eq!(ErrorKind::Conflict.status(), 409);
    assert_eq!(ErrorKind::Conflict.name(), "Conflict");
    assert_eq!(ErrorKind::RateLimited.status(), 429);
    assert_eq!(ErrorKind::UpstreamUnavailable.status(), 503);
    assert_eq!(ErrorKind::UpstreamUnavailable.name(), "UpstreamUnavailable");
    assert_eq!(ErrorKind::Internal.status(), 500);
}
