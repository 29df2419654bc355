use messaging_core::auth::{AuthAuthority, AuthConfig, RegisterRequest, TokenClaims};
use messaging_core::conversation::Outcome;
use messaging_core::errors::ErrorKind;
use messaging_core::gateway::{
    authenticate_handshake, broadcast_message, handle_connect, handle_frame, outbound_frame,
    ClientMessage, FrameAction, WsMessage,
};
use messaging_core::models::GroupRole;
use messaging_core::processor::MessageProcessor;
use messaging_core::registry::ConnectionRegistry;

const A: u128 = 0xA;
const B: u128 = 0xB;
const C: u128 = 0xC;
const M1: u128 = 0x1001;

fn register(
    authority: &mut AuthAuthority,
    user: u128,
    name: &str,
    device: &str,
    session: u128,
    tag: u8,
) -> TokenClaims {
    let request = RegisterRequest {
        username: name.to_string(),
        email: format!("{name}@example.org"),
        password: "a long password".to_string(),
        public_key: "key".to_string(),
        dh_public_key: "dh".to_string(),
    };
    let grant = authority
        .register(
            &request,
            user,
            vec![tag; 16],
            device.to_string(),
            session,
            &[tag, 1],
            &[tag, 2],
            1_000,
        )
        .unwrap();
    TokenClaims::issue(grant.user_id, grant.session_id, device.to_string(), 1_000, grant.expires_in)
        .unwrap()
}

#[test]
fn register_send_receive() {
    let mut authority = AuthAuthority::new(AuthConfig::standard(), b"pepper".to_vec());
    let alice = register(&mut authority, A, "alice", "d1", 1, 1);
    let bob = register(&mut authority, B, "bob", "d2", 2, 2);

    // A invites B to conversation C
    let mut processor = MessageProcessor::new();
    processor.open_conversation(C);
    processor.add_member(C, A, GroupRole::Owner);
    processor.add_member(C, B, GroupRole::Member);

    // both connect with their access tokens
    let mut registry = ConnectionRegistry::new();
    let a = authenticate_handshake(Some(&alice), 1_010, 30).unwrap();
    let b = authenticate_handshake(Some(&bob), 1_010, 30).unwrap();
    assert_eq!((a, b), (A, B));
    handle_connect(&mut registry, a, alice.device_id.clone(), 1, 1_010);
    handle_connect(&mut registry, b, bob.device_id.clone(), 2, 1_010);

    // A sends M1
    let frame = WsMessage::Message(ClientMessage {
        conversation_id: C,
        message_id: M1,
        content: vec![0xDE, 0xAD],
        nonce: vec![0xBE, 0xEF],
        reply_to: None,
        timestamp: 1_011,
    });
    let envelope = match handle_frame(&mut registry, A, &"d1".to_string(), frame, 1_012) {
        FrameAction::Publish(envelope, route) => {
            assert_eq!(route.key, C);
            envelope
        }
        other => panic!("unexpected {:?}", other),
    };

    // the processor persists it and says what to publish
    let record = match processor.process_message(&envelope, 1_013) {
        Outcome::Accepted(record) => record,
        other => panic!("unexpected {:?}", other),
    };
    assert_eq!(processor.conversation(C).unwrap().log_len(), 1);
    assert_eq!(processor.conversation(C).unwrap().entry(0).envelope.message_id, M1);

    // the gateway delivers it to B and not to A
    let members = processor.get_conversation_participants(C);
    let targets = broadcast_message(&registry, &record, &members);
    assert_eq!(targets.len(), 1);
    assert_eq!(targets[0].user_id, B);
    assert_eq!(targets[0].device_id, "d2");
    let delivered = outbound_frame(&record);
    assert_eq!(delivered.message_id, M1);
    assert_eq!(delivered.content, vec![0xDE, 0xAD]);
    assert_eq!(delivered.nonce, vec![0xBE, 0xEF]);
}

#[test]
fn refresh_rotation_end_to_end() {
    let mut authority = AuthAuthority::new(AuthConfig::standard(), b"pepper".to_vec());
    let first = register(&mut authority, A, "alice", "d1", 1, 1);
    assert_eq!(authority.sessions().authorize(first.session_id, 1_100), Ok(A));
    // R1 -> (R2, access2)
    let second = authority.refresh(&[1, 2], 2, &[1, 3], &[1, 4], 1_200).unwrap();
    assert_eq!(second.session_id, 2);
    assert_eq!(authority.sessions().authorize(1, 1_201), Err(ErrorKind::Unauthorized));
    assert_eq!(authority.sessions().authorize(2, 1_201), Ok(A));
    // replay of R1 is answered 401 and takes the session of d1 down
    let replay = authority.refresh(&[1, 2], 3, &[1, 5], &[1, 6], 1_300);
    assert_eq!(replay, Err(ErrorKind::Unauthorized));
    assert_eq!(ErrorKind::Unauthorized.status(), 401);
    // access2 is unusable on the next request
    assert_eq!(authority.sessions().authorize(2, 1_301), Err(ErrorKind::Unauthorized));
    assert_eq!(authority.sessions().authorize(3, 1_301), Err(ErrorKind::Unauthorized));
    // a session that has run out speaks for nobody either
    let mut other = AuthAuthority::new(AuthConfig::standard(), b"pepper".to_vec());
    register(&mut other, B, "bob", "d2", 9, 2);
    assert_eq!(other.sessions().authorize(9, 1_000 + 2_592_000 - 1), Ok(B));
    assert_eq!(other.sessions().authorize(9, 1_000 + 2_592_000), Err(ErrorKind::Unauthorized));
}
