use messaging_core::bus::{Route, Topic};
use messaging_core::conversation::{create_delivery_status, ConversationState, Outcome};
use messaging_core::envelope::{day_bucket, MessageEnvelope, ProcessedMessage};
use messaging_core::models::GroupRole;
use messaging_core::processor::MessageProcessor;

const ALICE: u128 = 0xA11CE;
const BOB: u128 = 0xB0B;
const CAROL: u128 = 0xCA401;
const C: u128 = 0xC0;
const D: u128 = 0xD0;

fn envelope(sender: u128, conversation: u128, message: u128, at: i64) -> MessageEnvelope {
    MessageEnvelope {
        sender_id: sender,
        conversation_id: conversation,
        message_id: message,
        content: vec![0xDE, 0xAD],
        nonce: vec![0xBE, 0xEF],
        reply_to: None,
        timestamp: at,
        received_at: at,
    }
}

fn conversation_of_two() -> ConversationState {
    let mut c = ConversationState::new(C);
    assert!(c.add_member(ALICE, GroupRole::Owner));
    assert!(c.add_member(BOB, GroupRole::Member));
    c
}

fn accepted(out: Outcome) -> ProcessedMessage {
    match out {
        Outcome::Accepted(r) => r,
        other => panic!("expected an accepted envelope, got {:?}", other),
    }
}

#[test]
fn day_bucket_is_day_number_since_epoch() {
    assert_eq!(day_bucket(0), 0);
    assert_eq!(day_bucket(86_399), 0);
    assert_eq!(day_bucket(86_400), 1);
    assert_eq!(day_bucket(1_700_000_000), 19_675);
    assert_eq!(day_bucket(-1), -1);
    assert_eq!(day_bucket(-86_400), -1);
    assert_eq!(day_bucket(-86_401), -2);
    assert_eq!(day_bucket(i64::MAX), 106_751_991_167_300);
    assert_eq!(day_bucket(i64::MIN), -106_751_991_167_301);
}

#[test]
fn register_send_receive_logs_exactly_one_entry() {
    let mut c = conversation_of_two();
    let record = accepted(c.process(&envelope(ALICE, C, 1, 1_700_000_000), 1_700_000_001));
    assert_eq!(record.message_id, 1);
    assert_eq!(record.conversation_id, C);
    assert_eq!(record.sender_id, ALICE);
    assert_eq!(record.content, vec![0xDE, 0xAD]);
    assert_eq!(record.nonce, vec![0xBE, 0xEF]);
    assert_eq!(record.delivered_to, vec![ALICE]);
    assert!(record.read_by.is_empty());
    assert_eq!(c.log_len(), 1);
    let entry = c.entry(0);
    assert_eq!(entry.bucket, 19_675);
    assert_eq!(entry.envelope.message_id, 1);
    assert_eq!(entry.envelope.content, vec![0xDE, 0xAD]);
    assert_eq!(c.find_message(1), Some(0));
    assert_eq!(c.find_message(2), None);
    assert_eq!(c.last_message_at(), Some(1_700_000_000));
}

#[test]
fn inbox_counts_messages_of_others() {
    let mut c = conversation_of_two();
    accepted(c.process(&envelope(ALICE, C, 1, 100), 100));
    accepted(c.process(&envelope(ALICE, C, 2, 101), 101));
    let bob = c.participant(BOB).unwrap();
    assert_eq!(bob.inbox.unread_count, 2);
    assert_eq!(bob.inbox.last_message_id, Some(2));
    assert_eq!(bob.inbox.last_message_at, Some(101));
    assert_eq!(bob.inbox.last_seen_message_id, None);
    let alice = c.participant(ALICE).unwrap();
    assert_eq!(alice.inbox.unread_count, 0);
    assert_eq!(alice.inbox.last_seen_message_id, Some(2));
    accepted(c.process(&envelope(BOB, C, 3, 102), 102));
    assert_eq!(c.participant(BOB).unwrap().inbox.unread_count, 0);
    assert_eq!(c.participant(BOB).unwrap().inbox.last_seen_message_id, Some(3));
    assert_eq!(c.participant(ALICE).unwrap().inbox.unread_count, 1);
}

#[test]
fn delivery_records_mark_the_author_only() {
    let mut c = conversation_of_two();
    accepted(c.process(&envelope(ALICE, C, 1, 100), 150));
    let own = c.delivery(1, ALICE).unwrap();
    assert!(own.delivered);
    assert_eq!(own.delivered_at, Some(150));
    assert!(!own.read);
    let other = c.delivery(1, BOB).unwrap();
    assert!(!other.delivered);
    assert_eq!(other.delivered_at, None);
    assert!(c.delivery(1, CAROL).is_none());
    assert!(c.delivery(2, BOB).is_none());
    let records = create_delivery_status(9, &vec![ALICE, BOB], BOB, 7);
    assert_eq!(records.len(), 2);
    assert!(!records[0].delivered);
    assert!(records[1].delivered);
    assert_eq!(records[1].delivered_at, Some(7));
}

#[test]
fn replay_is_absorbed_and_published_again() {
    let mut c = conversation_of_two();
    accepted(c.process(&envelope(ALICE, C, 1, 100), 100));
    let again = c.process(&envelope(ALICE, C, 1, 100), 200);
    match again {
        Outcome::Replayed(r) => {
            assert_eq!(r.message_id, 1);
            assert_eq!(r.content, vec![0xDE, 0xAD]);
        }
        other => panic!("expected a replay, got {:?}", other),
    }
    assert_eq!(c.log_len(), 1);
    assert_eq!(c.participant(BOB).unwrap().inbox.unread_count, 1);
    assert_eq!(c.delivery(1, ALICE).unwrap().delivered_at, Some(100));
}

#[test]
fn replay_with_other_bytes_publishes_what_is_stored() {
    let mut c = conversation_of_two();
    accepted(c.process(&envelope(ALICE, C, 1, 100), 100));
    let mut forged = envelope(ALICE, C, 1, 100);
    forged.content = vec![0xFF];
    match c.process(&forged, 101) {
        Outcome::Replayed(r) => assert_eq!(r.content, vec![0xDE, 0xAD]),
        other => panic!("expected a replay, got {:?}", other),
    }
}

#[test]
fn crash_before_publish_gains_exactly_one_record() {
    let mut published: Vec<ProcessedMessage> = Vec::new();
    let mut c = conversation_of_two();
    // the first attempt persists, then the processor dies before it publishes
    let _lost = c.process(&envelope(ALICE, C, 1, 100), 100);
    // the offset was not committed: the envelope comes again
    match c.process(&envelope(ALICE, C, 1, 100), 130) {
        Outcome::Replayed(r) => published.push(r),
        other => panic!("expected a replay, got {:?}", other),
    }
    assert_eq!(c.log_len(), 1);
    assert_eq!(published.len(), 1);
    assert_eq!(published[0].message_id, 1);
}

#[test]
fn membership_revocation_drops_the_message() {
    let mut p = MessageProcessor::new();
    assert!(p.open_conversation(C));
    assert!(!p.open_conversation(C));
    assert!(p.open_conversation(D));
    assert!(p.add_member(C, ALICE, GroupRole::Owner));
    assert!(p.add_member(C, BOB, GroupRole::Member));
    assert!(p.add_member(D, ALICE, GroupRole::Member));
    assert!(p.add_member(D, BOB, GroupRole::Member));
    assert!(p.remove_member(C, BOB));
    assert!(!p.remove_member(C, BOB));
    // Bob is out of C: nothing of his is logged or published there
    assert!(matches!(p.process_message(&envelope(BOB, C, 4, 100), 100), Outcome::Dropped));
    assert_eq!(p.conversation(C).unwrap().log_len(), 0);
    // Alice's message in C no longer reaches Bob
    accepted(p.process_message(&envelope(ALICE, C, 5, 101), 101));
    assert_eq!(p.get_conversation_participants(C), vec![ALICE]);
    assert!(p.conversation(C).unwrap().delivery(5, BOB).is_none());
    // the direct conversation goes on as before
    let r = accepted(p.process_message(&envelope(ALICE, D, 6, 102), 102));
    assert_eq!(r.message_id, 6);
    assert_eq!(p.conversation(D).unwrap().participant(BOB).unwrap().inbox.unread_count, 1);
}

#[test]
fn banned_member_is_dropped_and_left_alone() {
    let mut c = conversation_of_two();
    assert!(c.set_banned(BOB, true));
    assert!(!c.is_member(BOB));
    assert!(c.is_member(ALICE));
    assert!(!c.set_banned(CAROL, true));
    assert!(matches!(c.process(&envelope(BOB, C, 1, 100), 100), Outcome::Dropped));
    accepted(c.process(&envelope(ALICE, C, 2, 101), 101));
    assert_eq!(c.participant(BOB).unwrap().inbox.unread_count, 0);
    assert_eq!(c.list_members(), vec![ALICE]);
    // lifting the ban starts the inbox afresh
    assert!(c.set_banned(BOB, false));
    let bob = c.participant(BOB).unwrap();
    assert_eq!(bob.inbox.unread_count, 0);
    assert_eq!(bob.inbox.last_seen_message_id, Some(2));
    accepted(c.process(&envelope(ALICE, C, 3, 102), 102));
    assert_eq!(c.participant(BOB).unwrap().inbox.unread_count, 1);
}

#[test]
fn envelope_for_another_conversation_is_dropped() {
    let mut c = conversation_of_two();
    assert!(matches!(c.process(&envelope(ALICE, D, 1, 100), 100), Outcome::Dropped));
    assert_eq!(c.log_len(), 0);
    let mut p = MessageProcessor::new();
    assert!(matches!(p.process_message(&envelope(ALICE, C, 1, 100), 100), Outcome::Dropped));
    assert!(!p.has_conversation(C));
    assert!(!p.is_member(C, ALICE));
    assert!(p.get_conversation_participants(C).is_empty());
}

#[test]
fn late_joiner_starts_with_nothing_unread() {
    let mut c = conversation_of_two();
    accepted(c.process(&envelope(ALICE, C, 1, 100), 100));
    assert!(c.add_member(CAROL, GroupRole::Guest));
    assert!(!c.add_member(CAROL, GroupRole::Admin));
    let carol = c.participant(CAROL).unwrap();
    assert_eq!(carol.role, GroupRole::Guest);
    assert_eq!(carol.inbox.unread_count, 0);
    assert_eq!(carol.inbox.last_seen_message_id, Some(1));
    accepted(c.process(&envelope(BOB, C, 2, 101), 101));
    assert_eq!(c.participant(CAROL).unwrap().inbox.unread_count, 1);
    assert_eq!(c.participant(ALICE).unwrap().inbox.unread_count, 1);
}

#[test]
fn last_message_at_only_moves_forward() {
    let mut c = conversation_of_two();
    accepted(c.process(&envelope(ALICE, C, 1, 200), 200));
    accepted(c.process(&envelope(BOB, C, 2, 150), 201));
    assert_eq!(c.last_message_at(), Some(200));
    accepted(c.process(&envelope(BOB, C, 3, 250), 251));
    assert_eq!(c.last_message_at(), Some(250));
}

#[test]
fn batch_keeps_the_order_of_arrival() {
    let mut p = MessageProcessor::new();
    p.open_conversation(C);
    p.add_member(C, ALICE, GroupRole::Owner);
    p.add_member(C, BOB, GroupRole::Member);
    let batch = vec![
        envelope(ALICE, C, 10, 100),
        envelope(CAROL, C, 11, 101),
        envelope(BOB, C, 12, 102),
        envelope(ALICE, C, 10, 103),
        envelope(ALICE, C, 13, 104),
    ];
    let outs = p.process_messages(&batch, 500);
    assert_eq!(outs.len(), 5);
    assert!(matches!(outs[0], Outcome::Accepted(_)));
    assert!(matches!(outs[1], Outcome::Dropped));
    assert!(matches!(outs[2], Outcome::Accepted(_)));
    assert!(matches!(outs[3], Outcome::Replayed(_)));
    assert!(matches!(outs[4], Outcome::Accepted(_)));
    let c = p.conversation(C).unwrap();
    assert_eq!(c.log_len(), 3);
    assert_eq!(c.entry(0).envelope.message_id, 10);
    assert_eq!(c.entry(1).envelope.message_id, 12);
    assert_eq!(c.entry(2).envelope.message_id, 13);
}

#[test]
fn read_receipt_marks_the_record_and_goes_to_the_reader_key() {
    let mut p = MessageProcessor::new();
    p.open_conversation(C);
    p.add_member(C, ALICE, GroupRole::Owner);
    p.add_member(C, BOB, GroupRole::Member);
    accepted(p.process_message(&envelope(ALICE, C, 1, 100), 100));
    let (notice, route) = p.handle_read_receipt(C, BOB, 1, 321);
    assert_eq!(notice.user_id, BOB);
    assert_eq!(notice.message_id, 1);
    assert_eq!(notice.read_at, 321);
    assert_eq!(route, Route { topic: Topic::ReadReceipts, key: BOB });
    let d = p.conversation(C).unwrap().delivery(1, BOB).unwrap();
    assert!(d.read);
    assert_eq!(d.read_at, Some(321));
    let own = p.conversation(C).unwrap().delivery(1, ALICE).unwrap();
    assert!(!own.read);
    let processed = ProcessedMessage::from_envelope(&envelope(ALICE, C, 1, 100));
    assert_eq!(
        MessageProcessor::publish_processed_message(&processed),
        Route { topic: Topic::ProcessedMessages, key: C }
    );
}

#[test]
fn history_after_reads_forward_from_the_log() {
    let mut c = conversation_of_two();
    accepted(c.process(&envelope(ALICE, C, 1, 100), 100));
    accepted(c.process(&envelope(BOB, C, 2, 101), 101));
    accepted(c.process(&envelope(ALICE, C, 3, 102), 102));
    let all: Vec<u128> = c.history_after(None).iter().map(|e| e.message_id).collect();
    assert_eq!(all, vec![1, 2, 3]);
    let tail: Vec<u128> = c.history_after(Some(1)).iter().map(|e| e.message_id).collect();
    assert_eq!(tail, vec![2, 3]);
    assert!(c.history_after(Some(3)).is_empty());
    let unknown: Vec<u128> = c.history_after(Some(99)).iter().map(|e| e.message_id).collect();
    assert_eq!(unknown, vec![1, 2, 3]);
}
