use messaging_core::client::{
    AuthResponse, DoubleRatchetSession, GroupResponse, IncomingMessage, MessageHandler,
    MessagingClient, PresenceHandler, SdkError, UserResponse, CLIENT_HEARTBEAT_SECS,
};
use messaging_core::gateway::{ClientMessage, PresenceUpdate, TypingIndicator, WsMessage};
use std::cell::RefCell;

fn session() -> DoubleRatchetSession {
    DoubleRatchetSession {
        root_key: [7u8; 32],
        sending_chain_key: [1u8; 32],
        receiving_chain_key: [1u8; 32],
        sending_ratchet_key: [8u8; 32],
        receiving_ratchet_key: [9u8; 32],
        message_number: 0,
    }
}

fn response(user: u128) -> AuthResponse {
    AuthResponse {
        access_token: "access1".to_string(),
        refresh_token: "refresh1".to_string(),
        expires_in: 900,
        user: UserResponse {
            id: user,
            username: "alice".to_string(),
            email: "alice@example.org".to_string(),
            public_key: String::new(),
            dh_public_key: String::new(),
            created_at: 5,
        },
    }
}

fn logged_in() -> MessagingClient {
    let mut c = MessagingClient::with_keys("http://localhost:3000", "d1", [1u8; 32], [2u8; 32]);
    assert!(c.accept_auth(true, "", Ok(response(42))).is_ok());
    c
}

#[test]
fn socket_address_replaces_the_scheme() {
    let mut c = logged_in();
    assert_eq!(c.connect_websocket().unwrap(), "ws://localhost:3000/ws?token=access1&device_id=d1");
    let mut plain = MessagingClient::new("example.org", "phone");
    plain.accept_auth(true, "", Ok(response(1))).unwrap();
    assert_eq!(plain.connect_websocket().unwrap(), "ws://example.org/ws?token=access1&device_id=phone");
}

#[test]
fn registration_request_carries_the_public_keys() {
    let mut c = MessagingClient::with_keys("http://h", "d1", [1u8; 32], [2u8; 32]);
    let request = c.register("alice", "alice@example.org", "secret-password");
    assert_eq!(request.username, "alice");
    assert_eq!(request.email, "alice@example.org");
    assert_eq!(request.password, "secret-password");
    assert_eq!(request.public_key, "iojj3XQJ8ZX9UtstPLpdcspnCb8dlBIb83SIAbQPb1w=");
    assert_eq!(request.signed_pre_key, "gTl3Dqh9F19Wo1Rmw0x+zMuNipG07jeiXfYPW4/Js5Q=");
    assert_eq!(request.dh_public_key, "AAAAAAAAAAAAAAAAAAAAAAAAAAAAAAAAAAAAAAAAAAA=");
    assert!(request.one_time_keys.is_empty());
    assert_eq!(c.user_id(), None);
}

#[test]
fn login_request_names_the_device() {
    let c = MessagingClient::with_keys("http://h", "d1", [1u8; 32], [2u8; 32]);
    let request = c.login("alice", "pw", "My Device");
    assert_eq!(request.username, "alice");
    assert_eq!(request.password, "pw");
    assert_eq!(request.device_id, "d1");
    assert_eq!(request.device_name, "My Device");
}

#[test]
fn answers_of_the_authority_are_taken_in() {
    let mut c = MessagingClient::with_keys("http://h", "d1", [1u8; 32], [2u8; 32]);
    match c.accept_auth(false, "Login failed: 401 Unauthorized", Ok(response(42))) {
        Err(SdkError::AuthError(m)) => assert_eq!(m, "Login failed: 401 Unauthorized"),
        other => panic!("unexpected {:?}", other),
    }
    assert!(c.auth_token().is_none());
    match c.accept_auth(true, "", Err("expected value at line 1".to_string())) {
        Err(SdkError::SerializationError(m)) => assert_eq!(m, "expected value at line 1"),
        other => panic!("unexpected {:?}", other),
    }
    assert_eq!(c.user_id(), None);
    match c.connect_websocket() {
        Err(SdkError::InvalidState(m)) => assert_eq!(m, "Not authenticated"),
        other => panic!("unexpected {:?}", other),
    }
    assert!(!c.is_connected());
    let accepted = c.accept_auth(true, "", Ok(response(42))).unwrap();
    assert_eq!(accepted.refresh_token, "refresh1");
    assert_eq!(c.auth_token().as_deref(), Some("access1"));
    assert_eq!(c.user_id(), Some(42));
}

#[test]
fn messages_need_login_session_and_connection() {
    let mut c = MessagingClient::with_keys("http://h", "d1", [1u8; 32], [2u8; 32]);
    match c.send_message(7, b"hello", None, 10) {
        Err(SdkError::InvalidState(m)) => assert_eq!(m, "Not authenticated"),
        other => panic!("unexpected {:?}", other),
    }
    c.accept_auth(true, "", Ok(response(42))).unwrap();
    match c.send_message(7, b"hello", None, 10) {
        Err(SdkError::InvalidState(m)) => assert_eq!(m, "No encryption session for conversation"),
        other => panic!("unexpected {:?}", other),
    }
    c.install_session(7, session());
    match c.send_message(7, b"hello", None, 10) {
        Err(SdkError::InvalidState(m)) => assert_eq!(m, "WebSocket not connected"),
        other => panic!("unexpected {:?}", other),
    }
    c.connect_websocket().unwrap();
    assert!(c.is_connected());
    let message = c.prepare_message(7, 99, b"hello", Some(3), 10).unwrap();
    assert_eq!(message.conversation_id, 7);
    assert_eq!(message.message_id, 99);
    assert_eq!(message.reply_to, Some(3));
    assert_eq!(message.timestamp, 10);
    assert_eq!(message.nonce, vec![0u8; 12]);
    assert_eq!(
        message.content,
        vec![105, 66, 33, 189, 129, 203, 219, 231, 140, 85, 21, 136, 140, 75, 200, 219, 165, 104, 17, 161, 79]
    );
    let a = c.send_message(7, b"hello", None, 11).unwrap();
    let b = c.send_message(7, b"hello", None, 11).unwrap();
    assert_ne!(a.message_id, b.message_id);
    assert_eq!(a.content, message.content);
    assert!(c.send_message(8, b"hello", None, 11).is_err());
    c.disconnected();
    assert!(c.send_message(7, b"hello", None, 12).is_err());
}

#[test]
fn session_opens_what_it_sealed() {
    let s = session();
    let (ciphertext, nonce) = s.encrypt(b"hello").unwrap();
    assert_eq!(nonce, vec![0u8; 12]);
    assert_eq!(s.decrypt(&ciphertext, &nonce), Some(b"hello".to_vec()));
    assert_eq!(s.decrypt(&ciphertext, &[0u8; 11]), None);
    assert_eq!(s.decrypt(&ciphertext, &[1u8; 12]), None);
    assert_eq!(s.decrypt(&ciphertext[1..], &nonce), None);
}

#[test]
fn presence_and_typing_frames() {
    let mut c = logged_in();
    assert!(matches!(c.update_presence("online", None, 5), Err(SdkError::InvalidState(_))));
    assert!(matches!(c.send_typing_indicator(7, true), Err(SdkError::InvalidState(_))));
    c.connect_websocket().unwrap();
    match c.update_presence("online", Some("Available"), 5).unwrap() {
        WsMessage::Presence(p) => {
            assert_eq!(p.status, "online");
            assert_eq!(p.custom_status.as_deref(), Some("Available"));
            assert_eq!(p.last_active, 5);
        }
        other => panic!("unexpected {:?}", other),
    }
    match c.send_typing_indicator(7, true).unwrap() {
        WsMessage::Typing(t) => assert_eq!(t, TypingIndicator { conversation_id: 7, is_typing: true }),
        other => panic!("unexpected {:?}", other),
    }
    let (frame, every) = MessagingClient::start_heartbeat();
    assert!(matches!(frame, WsMessage::Heartbeat));
    assert_eq!(every, 30);
    assert_eq!(CLIENT_HEARTBEAT_SECS, 30);
}

#[test]
fn groups() {
    let c = logged_in();
    let request = c.create_group("friends", vec![1, 2, 3]);
    assert_eq!(request.name, "friends");
    assert_eq!(request.user_ids, vec![1, 2, 3]);
    assert!(request.is_encrypted);
    let group = GroupResponse { id: 77, name: "friends".to_string(), created_at: 1 };
    assert_eq!(MessagingClient::accept_group(true, "", Ok(group)).unwrap(), 77);
    match MessagingClient::accept_group(false, "Failed to create group: 403 Forbidden", Err(String::new())) {
        Err(SdkError::NetworkError(m)) => assert_eq!(m, "Failed to create group: 403 Forbidden"),
        other => panic!("unexpected {:?}", other),
    }
    match MessagingClient::accept_group(true, "", Err("eof".to_string())) {
        Err(SdkError::SerializationError(m)) => assert_eq!(m, "eof"),
        other => panic!("unexpected {:?}", other),
    }
}

#[test]
fn incoming_frames_reach_the_application() {
    let message = ClientMessage {
        conversation_id: 1,
        message_id: 2,
        content: vec![3],
        nonce: vec![4],
        reply_to: None,
        timestamp: 5,
    };
    match MessagingClient::receive_message(WsMessage::Message(message)) {
        Some(IncomingMessage::ChatMessage(m)) => assert_eq!(m.message_id, 2),
        other => panic!("unexpected {:?}", other),
    }
    let typing = TypingIndicator { conversation_id: 1, is_typing: false };
    match MessagingClient::receive_message(WsMessage::Typing(typing)) {
        Some(IncomingMessage::TypingIndicator(t)) => assert_eq!(t, typing),
        other => panic!("unexpected {:?}", other),
    }
    let presence =
        PresenceUpdate { status: "online".to_string(), custom_status: None, last_active: 1 };
    assert!(MessagingClient::receive_message(WsMessage::Presence(presence)).is_none());
    assert!(MessagingClient::receive_message(WsMessage::Heartbeat).is_none());
}

struct Recorder {
    name: &'static str,
    seen: RefCell<Vec<String>>,
}

impl MessageHandler for Recorder {
    fn on_message(&self, message: &ClientMessage) {
        self.seen.borrow_mut().push(format!("{}:{}", self.name, message.message_id));
    }
}

impl PresenceHandler for Recorder {
    fn on_presence_update(&self, presence: &PresenceUpdate) {
        self.seen.borrow_mut().push(format!("{}:{}", self.name, presence.status));
    }
}

#[test]
fn handlers_are_told_in_order() {
    let mut handlers: Vec<Recorder> = Vec::new();
    MessagingClient::add_message_handler(&mut handlers, Recorder { name: "a", seen: RefCell::new(vec![]) });
    MessagingClient::add_message_handler(&mut handlers, Recorder { name: "b", seen: RefCell::new(vec![]) });
    let message = ClientMessage {
        conversation_id: 1,
        message_id: 2,
        content: vec![],
        nonce: vec![],
        reply_to: None,
        timestamp: 5,
    };
    MessagingClient::notify_message(&handlers, &message);
    assert_eq!(*handlers[0].seen.borrow(), vec!["a:2".to_string()]);
    assert_eq!(*handlers[1].seen.borrow(), vec!["b:2".to_string()]);
    let mut watchers: Vec<Recorder> = Vec::new();
    MessagingClient::add_presence_handler(&mut watchers, Recorder { name: "w", seen: RefCell::new(vec![]) });
    let presence = PresenceUpdate { status: "away".to_string(), custom_status: None, last_active: 1 };
    MessagingClient::notify_presence(&watchers, &presence);
    assert_eq!(*watchers[0].seen.borrow(), vec!["w:away".to_string()]);
}
