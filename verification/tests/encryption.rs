use messaging_core::encryption::{
    check_request_ids, rotate_group_keys, EncryptionService, StoreSessionRequest,
};
use messaging_core::errors::ErrorKind;

const S1: &str = "00000000-0000-0000-0000-000000000001";
const S2: &str = "00000000-0000-0000-0000-000000000002";
const U: &str = "00000000-0000-0000-0000-00000000000a";
const P: &str = "00000000-0000-0000-0000-00000000000b";

fn request(session: &str, user: &str, peer: &str, key: u8, number: u32) -> StoreSessionRequest {
    StoreSessionRequest {
        session_id: session.to_string(),
        user_id: user.to_string(),
        peer_id: peer.to_string(),
        root_key: vec![key; 4],
        sending_chain_key: vec![key + 1; 4],
        receiving_chain_key: vec![key + 2; 4],
        sending_ratchet_key: vec![key + 3; 4],
        receiving_ratchet_key: vec![key + 4; 4],
        prev_sending_chain_length: number,
        prev_receiving_chain_length: number + 1,
        message_number: number + 2,
    }
}

#[test]
fn parking_twice_replaces_the_keys_and_keeps_the_counters() {
    let mut service = EncryptionService::new();
    assert_eq!(service.store_encryption_session(request(S1, U, P, 10, 5), 100), Ok(()));
    assert_eq!(service.store_encryption_session(request(S1, U, P, 20, 9), 200), Ok(()));
    assert_eq!(service.len(), 1);
    let s = service.get_encryption_session(U, P).unwrap();
    assert_eq!(s.session_id, 1);
    assert_eq!(s.user_id, 0xa);
    assert_eq!(s.peer_id, 0xb);
    assert_eq!(s.root_key, vec![20; 4]);
    assert_eq!(s.sending_chain_key, vec![21; 4]);
    assert_eq!(s.receiving_chain_key, vec![22; 4]);
    assert_eq!(s.sending_ratchet_key, vec![23; 4]);
    assert_eq!(s.receiving_ratchet_key, vec![24; 4]);
    assert_eq!(s.prev_sending_chain_length, 5);
    assert_eq!(s.prev_receiving_chain_length, 6);
    assert_eq!(s.message_number, 7);
    assert_eq!(s.created_at, 100);
    assert_eq!(s.updated_at, 200);
}

#[test]
fn the_session_updated_last_is_found() {
    let mut service = EncryptionService::new();
    service.store_encryption_session(request(S1, U, P, 10, 0), 100).unwrap();
    service.store_encryption_session(request(S2, U, P, 30, 0), 300).unwrap();
    service.store_encryption_session(request(S1, P, U, 50, 0), 400).unwrap();
    assert_eq!(service.len(), 3);
    assert_eq!(service.get_encryption_session(U, P).unwrap().session_id, 2);
    service.store_encryption_session(request(S1, U, P, 11, 0), 500).unwrap();
    assert_eq!(service.get_encryption_session(U, P).unwrap().session_id, 1);
    assert_eq!(service.get_encryption_session(P, U).unwrap().root_key, vec![50; 4]);
    assert_eq!(service.get_encryption_session(U, U).err(), Some(ErrorKind::NotFound));
    assert_eq!(service.latest(0xa, 0xb).unwrap().updated_at, 500);
}

#[test]
fn ids_that_are_no_uuids_are_refused() {
    let mut service = EncryptionService::new();
    assert_eq!(
        service.store_encryption_session(request("x", U, P, 1, 0), 1),
        Err(ErrorKind::Validation)
    );
    assert_eq!(
        service.store_encryption_session(request(S1, "x", P, 1, 0), 1),
        Err(ErrorKind::Validation)
    );
    assert_eq!(
        service.store_encryption_session(request(S1, U, "x", 1, 0), 1),
        Err(ErrorKind::Validation)
    );
    assert_eq!(service.len(), 0);
    assert_eq!(service.get_encryption_session("x", P).err(), Some(ErrorKind::Validation));
    assert_eq!(service.get_encryption_session(U, "x").err(), Some(ErrorKind::Validation));
    assert_eq!(service.delete_encryption_session("x"), Err(ErrorKind::Validation));
    assert_eq!(check_request_ids(Some(1), Some(2), Some(3)), Ok((1, 2, 3)));
    assert_eq!(check_request_ids(Some(1), None, Some(3)), Err(ErrorKind::Validation));
}

#[test]
fn deleting_takes_out_every_session_with_the_id() {
    let mut service = EncryptionService::new();
    service.store_encryption_session(request(S1, U, P, 10, 0), 100).unwrap();
    service.store_encryption_session(request(S2, U, P, 30, 0), 300).unwrap();
    service.store_encryption_session(request(S1, P, U, 50, 0), 400).unwrap();
    assert_eq!(service.delete_encryption_session(S1), Ok(()));
    assert_eq!(service.len(), 1);
    assert_eq!(service.get_encryption_session(U, P).unwrap().session_id, 2);
    assert_eq!(service.get_encryption_session(P, U).err(), Some(ErrorKind::NotFound));
    assert_eq!(service.delete_encryption_session(S1), Ok(()));
    assert_eq!(service.len(), 1);
}

#[test]
fn rotation_counts_the_members_in_good_standing() {
    assert_eq!(rotate_group_keys(Some(5), &vec![1, 2, 3]), Ok(3));
    assert_eq!(rotate_group_keys(Some(5), &vec![]), Ok(0));
    assert_eq!(rotate_group_keys(None, &vec![1]), Err(ErrorKind::Validation));
}
