use messaging_core::bus::{
    route_dead_letter, route_envelope, route_presence, route_read_receipt, Failure, Partition,
    RetryDecision, RetryPolicy, Route, Topic, PUBLISH_TIMEOUT_SECS, STORE_TIMEOUT_SECS,
};
use messaging_core::envelope::{MessageEnvelope, ReadReceiptUpdate};

#[test]
fn topics_have_their_names() {
    assert_eq!(Topic::Messages.name(), "messages");
    assert_eq!(Topic::ProcessedMessages.name(), "processed-messages");
    assert_eq!(Topic::ReadReceipts.name(), "read-receipts");
    assert_eq!(Topic::PresenceEvents.name(), "presence-events");
    assert_eq!(Topic::ModerationEvents.name(), "moderation-events");
    assert_eq!(Topic::ModerationActions.name(), "moderation-actions");
    assert_eq!(Topic::DeadLetter.name(), "dead-letter");
    assert_eq!(PUBLISH_TIMEOUT_SECS, 5);
    assert_eq!(STORE_TIMEOUT_SECS, 10);
}

#[test]
fn keys_follow_the_keying_rules() {
    let e = MessageEnvelope {
        sender_id: 1,
        conversation_id: 2,
        message_id: 3,
        content: vec![],
        nonce: vec![],
        reply_to: None,
        timestamp: 0,
        received_at: 0,
    };
    assert_eq!(route_envelope(&e), Route { topic: Topic::Messages, key: 2 });
    let receipt = ReadReceiptUpdate { user_id: 9, message_id: 3, read_at: 1 };
    assert_eq!(route_read_receipt(&receipt), Route { topic: Topic::ReadReceipts, key: 9 });
    assert_eq!(route_presence(4), Route { topic: Topic::PresenceEvents, key: 4 });
    assert_eq!(route_dead_letter(route_envelope(&e)), Route { topic: Topic::DeadLetter, key: 2 });
}

#[test]
fn backoff_doubles_and_is_capped_at_thirty_seconds() {
    let p = RetryPolicy::standard();
    assert_eq!(p.max_attempts, 5);
    assert_eq!(p.cap_secs, 30);
    assert_eq!(p.backoff(0), 0);
    assert_eq!(p.backoff(1), 1);
    assert_eq!(p.backoff(2), 2);
    assert_eq!(p.backoff(3), 4);
    assert_eq!(p.backoff(4), 8);
    assert_eq!(p.backoff(5), 16);
    assert_eq!(p.backoff(6), 30);
    assert_eq!(p.backoff(7), 30);
    assert_eq!(p.backoff(u32::MAX), 30);
    let slow = RetryPolicy { base_secs: 40, cap_secs: 30, max_attempts: 5 };
    assert_eq!(slow.backoff(1), 30);
    let odd = RetryPolicy { base_secs: 7, cap_secs: 30, max_attempts: 5 };
    assert_eq!(odd.backoff(3), 28);
    assert_eq!(odd.backoff(4), 30);
    let zero = RetryPolicy { base_secs: 0, cap_secs: 30, max_attempts: 5 };
    assert_eq!(zero.backoff(9), 0);
}

#[test]
fn five_attempts_then_dead_letter() {
    let p = RetryPolicy::standard();
    assert_eq!(p.decide(Failure::Transient, 1), RetryDecision::RetryAfter(1));
    assert_eq!(p.decide(Failure::Transient, 4), RetryDecision::RetryAfter(8));
    assert_eq!(p.decide(Failure::Transient, 5), RetryDecision::DeadLetter);
    assert_eq!(p.decide(Failure::Transient, 6), RetryDecision::DeadLetter);
    assert_eq!(p.decide(Failure::Permanent, 0), RetryDecision::DeadLetter);
    assert_eq!(p.decide(Failure::Permanent, 1), RetryDecision::DeadLetter);
}

#[test]
fn partition_redelivers_until_committed() {
    let mut p = Partition::new();
    assert!(p.poll().is_none());
    assert_eq!(p.publish(vec![1]), 0);
    assert_eq!(p.publish(vec![2]), 1);
    assert_eq!(p.publish(vec![3]), 2);
    assert_eq!(p.len(), 3);
    // what is not committed comes again, in publish order
    assert_eq!(p.poll(), Some((0, &vec![1])));
    assert_eq!(p.poll(), Some((0, &vec![1])));
    p.commit(0);
    assert_eq!(p.poll(), Some((1, &vec![2])));
    // committing what is behind or beyond changes nothing
    p.commit(0);
    p.commit(7);
    assert_eq!(p.poll(), Some((1, &vec![2])));
    p.commit(2);
    assert!(p.poll().is_none());
    assert_eq!(p.publish(vec![4]), 3);
    assert_eq!(p.poll(), Some((3, &vec![4])));
}
