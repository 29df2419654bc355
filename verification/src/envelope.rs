//! The envelope: the opaque unit that clients exchange and the server stores.
//!
//! The server never looks inside `content` or `nonce`; both are byte strings
//! that travel unchanged from the sending client to every receiving device.

use vstd::prelude::*;

verus! {

/// Number of seconds in one day: the width of a time bucket of the log.
pub const SECONDS_PER_DAY: i64 = 86_400;

/// The day number since the epoch of an instant given in seconds. Instants
/// before the epoch fall into negative buckets.
pub open spec fn spec_day_bucket(received_at: i64) -> int {
    received_at as int / 86_400
}

/// Derives the time bucket under which a message received at `received_at`
/// is stored.
pub fn day_bucket(received_at: i64) -> (bucket: i64)
    ensures
        bucket == spec_day_bucket(received_at),
        bucket * 86_400 <= received_at < (bucket + 1) * 86_400,
{
    if received_at >= 0 {
        received_at / SECONDS_PER_DAY
    } else {
        -((-(received_at + 1)) / SECONDS_PER_DAY) - 1
    }
}

/// Copies a byte string.
pub fn copy_bytes(bytes: &Vec<u8>) -> (copy: Vec<u8>)
    ensures
        copy@ == bytes@,
{
    let mut copy: Vec<u8> = Vec::with_capacity(bytes.len());
    let mut i: usize = 0;
    while i < bytes.len()
        invariant
            i <= bytes.len(),
            copy@ == bytes@.take(i as int),
        decreases bytes.len() - i,
    {
        copy.push(bytes[i]);
        assert(bytes@.take(i as int + 1) =~= bytes@.take(i as int).push(bytes@[i as int]));
        i = i + 1;
    }
    assert(bytes@.take(bytes.len() as int) =~= bytes@);
    copy
}

/// Whether two byte strings are equal.
pub fn same_bytes(a: &Vec<u8>, b: &Vec<u8>) -> (same: bool)
    ensures
        same == (a@ == b@),
{
    if a.len() != b.len() {
        return false;
    }
    let mut i: usize = 0;
    while i < a.len()
        invariant
            i <= a.len(),
            a.len() == b.len(),
            forall|j: int| 0 <= j < i ==> a@[j] == b@[j],
        decreases a.len() - i,
    {
        if a[i] != b[i] {
            return false;
        }
        i = i + 1;
    }
    assert(a@ =~= b@);
    true
}

/// An envelope as it travels on the `messages` topic.
#[derive(Debug)]
pub struct MessageEnvelope {
    pub sender_id: u128,
    pub conversation_id: u128,
    pub message_id: u128,
    pub content: Vec<u8>,
    pub nonce: Vec<u8>,
    pub reply_to: Option<u128>,
    /// The instant the client put on the message.
    pub timestamp: i64,
    /// The instant the gateway accepted the message.
    pub received_at: i64,
}

/// What an envelope holds, as mathematical values.
pub struct EnvelopeView {
    pub sender_id: u128,
    pub conversation_id: u128,
    pub message_id: u128,
    pub content: Seq<u8>,
    pub nonce: Seq<u8>,
    pub reply_to: Option<u128>,
    pub timestamp: i64,
    pub received_at: i64,
}

impl View for MessageEnvelope {
    type V = EnvelopeView;

    open spec fn view(&self) -> EnvelopeView {
        EnvelopeView {
            sender_id: self.sender_id,
            conversation_id: self.conversation_id,
            message_id: self.message_id,
            content: self.content@,
            nonce: self.nonce@,
            reply_to: self.reply_to,
            timestamp: self.timestamp,
            received_at: self.received_at,
        }
    }
}

impl Clone for MessageEnvelope {
    fn clone(&self) -> (copy: Self)
        ensures
            copy@ == self@,
    {
        MessageEnvelope {
            sender_id: self.sender_id,
            conversation_id: self.conversation_id,
            message_id: self.message_id,
            content: copy_bytes(&self.content),
            nonce: copy_bytes(&self.nonce),
            reply_to: self.reply_to,
            timestamp: self.timestamp,
            received_at: self.received_at,
        }
    }
}

/// An envelope after persistence, as it travels on `processed-messages`.
#[derive(Debug)]
pub struct ProcessedMessage {
    pub message_id: u128,
    pub conversation_id: u128,
    pub sender_id: u128,
    pub content: Vec<u8>,
    pub nonce: Vec<u8>,
    pub reply_to: Option<u128>,
    pub timestamp: i64,
    pub delivered_to: Vec<u128>,
    pub read_by: Vec<u128>,
}

/// What a processed message holds, as mathematical values.
pub struct ProcessedView {
    pub message_id: u128,
    pub conversation_id: u128,
    pub sender_id: u128,
    pub content: Seq<u8>,
    pub nonce: Seq<u8>,
    pub reply_to: Option<u128>,
    pub timestamp: i64,
    pub delivered_to: Seq<u128>,
    pub read_by: Seq<u128>,
}

impl View for ProcessedMessage {
    type V = ProcessedView;

    open spec fn view(&self) -> ProcessedView {
        ProcessedView {
            message_id: self.message_id,
            conversation_id: self.conversation_id,
            sender_id: self.sender_id,
            content: self.content@,
            nonce: self.nonce@,
            reply_to: self.reply_to,
            timestamp: self.timestamp,
            delivered_to: self.delivered_to@,
            read_by: self.read_by@,
        }
    }
}

/// The record that is published for a persisted envelope: the same bytes,
/// delivered so far to the author alone and read by nobody.
pub open spec fn processed_record(e: EnvelopeView) -> ProcessedView {
    ProcessedView {
        message_id: e.message_id,
        conversation_id: e.conversation_id,
        sender_id: e.sender_id,
        content: e.content,
        nonce: e.nonce,
        reply_to: e.reply_to,
        timestamp: e.timestamp,
        delivered_to: seq![e.sender_id],
        read_by: Seq::empty(),
    }
}

impl ProcessedMessage {
    /// Builds the record to publish for a persisted envelope.
    pub fn from_envelope(envelope: &MessageEnvelope) -> (record: ProcessedMessage)
        ensures
            record@ == processed_record(envelope@),
    {
        let mut delivered_to: Vec<u128> = Vec::new();
        delivered_to.push(envelope.sender_id);
        let record = ProcessedMessage {
            message_id: envelope.message_id,
            conversation_id: envelope.conversation_id,
            sender_id: envelope.sender_id,
            content: copy_bytes(&envelope.content),
            nonce: copy_bytes(&envelope.nonce),
            reply_to: envelope.reply_to,
            timestamp: envelope.timestamp,
            delivered_to,
            read_by: Vec::new(),
        };
        assert(record.delivered_to@ =~= seq![envelope.sender_id]);
        assert(record.read_by@ =~= Seq::<u128>::empty());
        record
    }
}

/// Notice that a recipient has read a message, as it travels on
/// `read-receipts`.
#[derive(Debug, Clone, Copy, PartialEq, Eq, Structural)]
pub struct ReadReceiptUpdate {
    pub user_id: u128,
    pub message_id: u128,
    pub read_at: i64,
}

} // verus!
