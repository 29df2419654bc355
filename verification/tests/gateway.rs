use messaging_core::auth::TokenClaims;
use messaging_core::bus::{Route, Topic};
use messaging_core::envelope::{MessageEnvelope, ProcessedMessage};
use messaging_core::gateway::{
    authenticate_handshake, broadcast_message, broadcast_typing, cleanup_stale_connections,
    forward_message, handle_connect, handle_disconnect, handle_frame, handle_send_failure,
    outbound_frame, route_topic, shutdown, ClientMessage, ConsumerRoute, FrameAction,
    MemberCache, ParseErrorMeter, PresenceUpdate, ReadReceipt, SendFailure, TypingIndicator,
    WsMessage, CLOSE_AUTH_FAILURE, CLOSE_NORMAL, CLOSE_REPLACED, CLOSE_SHUTDOWN,
    CLOSE_SLOW_CONSUMER,
};
use messaging_core::registry::{Connection, ConnectionRegistry, OUTBOUND_CAPACITY};

const ALICE: u128 = 1;
const BOB: u128 = 2;
const CAROL: u128 = 3;

fn processed(sender: u128, message: u128) -> ProcessedMessage {
    ProcessedMessage::from_envelope(&MessageEnvelope {
        sender_id: sender,
        conversation_id: 77,
        message_id: message,
        content: vec![0xDE, 0xAD],
        nonce: vec![0xBE, 0xEF],
        reply_to: Some(5),
        timestamp: 10,
        received_at: 11,
    })
}

fn channels(targets: &Vec<Connection>) -> Vec<u64> {
    let mut c: Vec<u64> = targets.iter().map(|t| t.channel).collect();
    c.sort();
    c
}

fn hub() -> ConnectionRegistry {
    let mut r = ConnectionRegistry::new();
    handle_connect(&mut r, ALICE, "d1".to_string(), 1, 1_000);
    handle_connect(&mut r, BOB, "d2".to_string(), 2, 1_000);
    handle_connect(&mut r, BOB, "d3".to_string(), 3, 1_000);
    r
}

#[test]
fn close_codes_are_the_documented_ones() {
    assert_eq!(CLOSE_NORMAL, 1000);
    assert_eq!(CLOSE_SHUTDOWN, 1001);
    assert_eq!(CLOSE_AUTH_FAILURE, 4401);
    assert_eq!(CLOSE_SLOW_CONSUMER, 4008);
    assert_eq!(CLOSE_REPLACED, 4409);
    assert_eq!(OUTBOUND_CAPACITY, 256);
}

#[test]
fn handshake_needs_a_good_token_in_time() {
    let claims = TokenClaims::issue(ALICE, 9, "d1".to_string(), 1_000, 900).unwrap();
    assert_eq!(authenticate_handshake(Some(&claims), 1_500, 30), Ok(ALICE));
    assert_eq!(authenticate_handshake(Some(&claims), 1_930, 30), Ok(ALICE));
    assert_eq!(authenticate_handshake(Some(&claims), 1_931, 30), Err(4401));
    assert_eq!(authenticate_handshake(Some(&claims), 900, 30), Err(4401));
    assert_eq!(authenticate_handshake(None, 1_500, 30), Err(4401));
}

#[test]
fn multi_device_fan_out_skips_the_author() {
    let mut r = hub();
    let members = vec![ALICE, BOB];
    let m2 = processed(ALICE, 2);
    let targets = broadcast_message(&r, &m2, &members);
    assert_eq!(channels(&targets), vec![2, 3]);
    assert!(targets.iter().all(|t| t.user_id == BOB));
    // d3 goes away: only d2 receives the next message
    assert!(!handle_disconnect(&mut r, BOB, &"d3".to_string(), 3));
    let m3 = processed(ALICE, 3);
    assert_eq!(channels(&broadcast_message(&r, &m3, &members)), vec![2]);
    // Bob's own messages reach Alice and none of Bob's devices
    assert_eq!(channels(&broadcast_message(&r, &processed(BOB, 4), &members)), vec![1]);
    // somebody who is no member receives nothing
    handle_connect(&mut r, CAROL, "d9".to_string(), 9, 1_000);
    assert_eq!(channels(&broadcast_message(&r, &m3, &members)), vec![2]);
    assert!(broadcast_message(&r, &m3, &vec![]).is_empty());
}

#[test]
fn outbound_frame_carries_the_same_bytes() {
    let frame = outbound_frame(&processed(ALICE, 2));
    assert_eq!(frame.conversation_id, 77);
    assert_eq!(frame.message_id, 2);
    assert_eq!(frame.content, vec![0xDE, 0xAD]);
    assert_eq!(frame.nonce, vec![0xBE, 0xEF]);
    assert_eq!(frame.reply_to, Some(5));
    assert_eq!(frame.timestamp, 10);
}

#[test]
fn backpressure_closes_only_the_slow_connection() {
    let mut r = hub();
    let members = vec![ALICE, BOB];
    let targets = broadcast_message(&r, &processed(ALICE, 2), &members);
    let slow = targets.iter().find(|t| t.device_id == "d2").unwrap();
    assert_eq!(handle_send_failure(&mut r, slow, SendFailure::Full), Some(4008));
    // fan-out to d3 goes on
    assert_eq!(channels(&broadcast_message(&r, &processed(ALICE, 3), &members)), vec![3]);
    assert!(r.is_online(BOB));
    let d3 = r.connections_of(BOB).pop().unwrap();
    assert_eq!(handle_send_failure(&mut r, &d3, SendFailure::Closed), None);
    assert!(!r.is_online(BOB));
    assert!(r.is_online(ALICE));
}

#[test]
fn newer_connection_displaces_the_older_one() {
    let mut r = hub();
    let outcome = handle_connect(&mut r, BOB, "d2".to_string(), 20, 2_000);
    assert_eq!(outcome.close_code, 4409);
    assert!(!outcome.came_online);
    let old = outcome.displaced.unwrap();
    assert_eq!(old.channel, 2);
    assert_eq!(old.device_id, "d2");
    assert_eq!(channels(&r.connections_of(BOB)), vec![3, 20]);
    // the end of the displaced connection does not take the new one out
    assert!(!handle_disconnect(&mut r, BOB, &"d2".to_string(), 2));
    assert_eq!(channels(&r.connections_of(BOB)), vec![3, 20]);
    let first = handle_connect(&mut r, CAROL, "d7".to_string(), 7, 2_000);
    assert!(first.came_online);
    assert!(first.displaced.is_none());
    assert!(handle_disconnect(&mut r, CAROL, &"d7".to_string(), 7));
    assert!(!r.is_online(CAROL));
}

#[test]
fn sweep_drops_connections_silent_for_sixty_seconds() {
    let mut r = hub();
    assert!(r.heartbeat(BOB, &"d3".to_string(), 1_030));
    assert!(!r.heartbeat(BOB, &"nope".to_string(), 1_030));
    assert!(!r.heartbeat(CAROL, &"d3".to_string(), 1_030));
    assert!(cleanup_stale_connections(&mut r, 1_059).is_empty());
    let dropped = cleanup_stale_connections(&mut r, 1_060);
    assert_eq!(channels(&dropped), vec![1, 2]);
    assert!(!r.is_online(ALICE));
    assert_eq!(channels(&r.connections_of(BOB)), vec![3]);
    let dropped = cleanup_stale_connections(&mut r, 1_090);
    assert_eq!(channels(&dropped), vec![3]);
    assert!(!r.is_online(BOB));
    assert!(cleanup_stale_connections(&mut r, 5_000).is_empty());
}

#[test]
fn connection_staleness_edge() {
    let c = Connection { user_id: 1, device_id: "d".to_string(), last_heartbeat: 100, channel: 0 };
    assert!(!c.stale(159));
    assert!(c.stale(160));
    assert!(!c.stale(50));
    let old = Connection {
        user_id: 1,
        device_id: "d".to_string(),
        last_heartbeat: i64::MIN,
        channel: 0,
    };
    assert!(old.stale(i64::MAX));
}

#[test]
fn shutdown_closes_everything() {
    let mut r = hub();
    let (all, code) = shutdown(&mut r);
    assert_eq!(code, 1001);
    assert_eq!(channels(&all), vec![1, 2, 3]);
    assert!(!r.is_online(ALICE));
    assert!(!r.is_online(BOB));
    assert!(shutdown(&mut r).0.is_empty());
}

#[test]
fn frames_are_dispatched() {
    let mut r = hub();
    let d1 = "d1".to_string();
    assert!(matches!(handle_frame(&mut r, ALICE, &d1, WsMessage::Heartbeat, 1_050), FrameAction::Nothing));
    assert_eq!(r.connections_of(ALICE)[0].last_heartbeat, 1_050);
    let message = ClientMessage {
        conversation_id: 77,
        message_id: 5,
        content: vec![1, 2, 3],
        nonce: vec![4],
        reply_to: None,
        timestamp: 999,
    };
    match handle_frame(&mut r, ALICE, &d1, WsMessage::Message(message), 1_051) {
        FrameAction::Publish(envelope, route) => {
            assert_eq!(envelope.sender_id, ALICE);
            assert_eq!(envelope.conversation_id, 77);
            assert_eq!(envelope.message_id, 5);
            assert_eq!(envelope.content, vec![1, 2, 3]);
            assert_eq!(envelope.nonce, vec![4]);
            assert_eq!(envelope.timestamp, 999);
            assert_eq!(envelope.received_at, 1_051);
            assert_eq!(route, Route { topic: Topic::Messages, key: 77 });
        }
        other => panic!("unexpected action {:?}", other),
    }
    let typing = TypingIndicator { conversation_id: 77, is_typing: true };
    match handle_frame(&mut r, ALICE, &d1, WsMessage::Typing(typing), 1_052) {
        FrameAction::BroadcastTyping(t) => assert_eq!(t, typing),
        other => panic!("unexpected action {:?}", other),
    }
    let receipt = ReadReceipt { message_id: 5, conversation_id: 77, read_at: 1_053 };
    match handle_frame(&mut r, BOB, &"d2".to_string(), WsMessage::ReadReceipt(receipt), 1_053) {
        FrameAction::PublishReceipt(x, route) => {
            assert_eq!(x, receipt);
            assert_eq!(route, Route { topic: Topic::ReadReceipts, key: BOB });
        }
        other => panic!("unexpected action {:?}", other),
    }
    let presence = PresenceUpdate {
        status: "away".to_string(),
        custom_status: Some("lunch".to_string()),
        last_active: 1_054,
    };
    match handle_frame(&mut r, BOB, &"d2".to_string(), WsMessage::Presence(presence), 1_054) {
        FrameAction::UpdatePresence(p) => {
            assert_eq!(p.status, "away");
            assert_eq!(p.custom_status.as_deref(), Some("lunch"));
            assert_eq!(p.last_active, 1_054);
        }
        other => panic!("unexpected action {:?}", other),
    }
    // only the heartbeat touched the registry
    assert_eq!(r.connections_of(BOB)[0].last_heartbeat, 1_000);
}

#[test]
fn typing_goes_to_members_only() {
    let mut r = hub();
    handle_connect(&mut r, CAROL, "d9".to_string(), 9, 1_000);
    assert_eq!(channels(&broadcast_typing(&r, &vec![ALICE, BOB], ALICE)), vec![2, 3]);
    assert_eq!(channels(&broadcast_typing(&r, &vec![ALICE, CAROL], CAROL)), vec![1]);
}

#[test]
fn forward_message_keys_by_conversation() {
    let message = ClientMessage {
        conversation_id: 8,
        message_id: 9,
        content: vec![7],
        nonce: vec![],
        reply_to: Some(1),
        timestamp: 3,
    };
    let (envelope, route) = forward_message(message, BOB, 44);
    assert_eq!(route.topic.name(), "messages");
    assert_eq!(route.key, 8);
    assert_eq!(envelope.sender_id, BOB);
    assert_eq!(envelope.reply_to, Some(1));
    assert_eq!(envelope.received_at, 44);
}

#[test]
fn consumer_routes_by_topic_name() {
    assert_eq!(route_topic("processed-messages"), ConsumerRoute::Deliver);
    assert_eq!(route_topic("presence-events"), ConsumerRoute::Presence);
    assert_eq!(route_topic("messages"), ConsumerRoute::Ignore);
    assert_eq!(route_topic(""), ConsumerRoute::Ignore);
}

#[test]
fn member_cache_lives_five_seconds() {
    let mut cache = MemberCache::new();
    assert!(cache.lookup(77, 100).is_none());
    cache.store(77, vec![ALICE, BOB], 100);
    cache.store(78, vec![CAROL], 100);
    assert_eq!(cache.lookup(77, 100), Some(vec![ALICE, BOB]));
    assert_eq!(cache.lookup(77, 104), Some(vec![ALICE, BOB]));
    assert_eq!(cache.lookup(77, 105), None);
    assert_eq!(cache.lookup(77, 99), None);
    cache.store(77, vec![ALICE], 105);
    assert_eq!(cache.lookup(77, 106), Some(vec![ALICE]));
    assert_eq!(cache.lookup(78, 104), Some(vec![CAROL]));
}

#[test]
fn parse_errors_close_a_connection_that_keeps_failing() {
    let mut meter = ParseErrorMeter::new(10);
    assert!(!meter.note(10, 3));
    assert!(!meter.note(10, 3));
    assert!(!meter.note(10, 3));
    assert!(meter.note(10, 3));
    // a new second starts a new count
    assert!(!meter.note(11, 3));
    assert_eq!(meter.count, 1);
    assert_eq!(meter.second, 11);
}
