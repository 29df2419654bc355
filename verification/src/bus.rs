//! The message bus as the services see it: the topics, the key under which
//! each kind of record travels, and what to do when publishing fails.
//!
//! Records with one key land in one partition and are seen in the order in
//! which they were published, so the keys decide what stays in order.

use vstd::prelude::*;
use crate::envelope::{MessageEnvelope, ProcessedMessage, ReadReceiptUpdate};

verus! {

/// The topics of the bus.
#[derive(Debug, Clone, Copy, PartialEq, Eq, Structural)]
pub enum Topic {
    /// Envelopes that clients have sent, keyed by conversation.
    Messages,
    /// Envelopes after persistence, keyed by conversation.
    ProcessedMessages,
    /// Read receipts on their way to the author, keyed by user.
    ReadReceipts,
    /// Changes of presence, keyed by user.
    PresenceEvents,
    /// What the moderation service has noticed, keyed by report.
    ModerationEvents,
    /// What moderators have done, keyed by moderator.
    ModerationActions,
    /// Envelopes that could not be handled, under the key they came with.
    DeadLetter,
}

impl Topic {
    /// The name of the topic on the bus.
    pub fn name(&self) -> (s: &'static str)
        ensures
            s@ == match *self {
                Topic::Messages => "messages"@,
                Topic::ProcessedMessages => "processed-messages"@,
                Topic::ReadReceipts => "read-receipts"@,
                Topic::PresenceEvents => "presence-events"@,
                Topic::ModerationEvents => "moderation-events"@,
                Topic::ModerationActions => "moderation-actions"@,
                Topic::DeadLetter => "dead-letter"@,
            },
    {
        match self {
            Topic::Messages => "messages",
            Topic::ProcessedMessages => "processed-messages",
            Topic::ReadReceipts => "read-receipts",
            Topic::PresenceEvents => "presence-events",
            Topic::ModerationEvents => "moderation-events",
            Topic::ModerationActions => "moderation-actions",
            Topic::DeadLetter => "dead-letter",
        }
    }
}

/// Seconds after which an unacknowledged publish counts as failed.
pub const PUBLISH_TIMEOUT_SECS: u64 = 5;

/// Seconds after which an unanswered store query counts as failed.
pub const STORE_TIMEOUT_SECS: u64 = 10;

/// Where a record goes: its topic and the id that keys it.
#[derive(Debug, Clone, Copy, PartialEq, Eq, Structural)]
pub struct Route {
    pub topic: Topic,
    pub key: u128,
}

/// An envelope from a client travels on `messages` under its conversation.
pub fn route_envelope(envelope: &MessageEnvelope) -> (route: Route)
    ensures
        route == (Route { topic: Topic::Messages, key: envelope.conversation_id }),
{
    Route { topic: Topic::Messages, key: envelope.conversation_id }
}

/// A persisted envelope travels on `processed-messages` under its
/// conversation.
pub fn route_processed(message: &ProcessedMessage) -> (route: Route)
    ensures
        route == (Route { topic: Topic::ProcessedMessages, key: message.conversation_id }),
{
    Route { topic: Topic::ProcessedMessages, key: message.conversation_id }
}

/// A read receipt travels on `read-receipts` under the reader.
pub fn route_read_receipt(receipt: &ReadReceiptUpdate) -> (route: Route)
    ensures
        route == (Route { topic: Topic::ReadReceipts, key: receipt.user_id }),
{
    Route { topic: Topic::ReadReceipts, key: receipt.user_id }
}

/// A change of presence travels on `presence-events` under the user.
pub fn route_presence(user_id: u128) -> (route: Route)
    ensures
        route == (Route { topic: Topic::PresenceEvents, key: user_id }),
{
    Route { topic: Topic::PresenceEvents, key: user_id }
}

/// A record that is given up goes to the dead-letter topic under the key
/// it had.
pub fn route_dead_letter(origin: Route) -> (route: Route)
    ensures
        route == (Route { topic: Topic::DeadLetter, key: origin.key }),
{
    Route { topic: Topic::DeadLetter, key: origin.key }
}

/// One partition of a topic: records in the order in which they were
/// published, and the offset up to which a consumer group has committed.
/// What is not committed is delivered again.
#[derive(Debug)]
pub struct Partition {
    records: Vec<Vec<u8>>,
    committed: usize,
}

impl Partition {
    /// The records of the partition, oldest first.
    pub closed spec fn records(&self) -> Seq<Seq<u8>> {
        Seq::new(self.records@.len(), |i: int| self.records@[i]@)
    }

    /// Number of records that the consumer group is done with.
    pub closed spec fn committed(&self) -> nat {
        self.committed as nat
    }

    /// The partition's invariant: nothing is committed that was not
    /// published.
    pub closed spec fn wf(&self) -> bool {
        self.committed <= self.records@.len()
    }

    /// A partition without records.
    pub fn new() -> (p: Partition)
        ensures
            p.wf(),
            p.records().len() == 0,
            p.committed() == 0,
    {
        Partition { records: Vec::new(), committed: 0 }
    }

    /// Appends a record and says at which offset it stands.
    pub fn publish(&mut self, payload: Vec<u8>) -> (offset: usize)
        requires
            old(self).wf(),
        ensures
            final(self).wf(),
            offset == old(self).records().len(),
            final(self).records() == old(self).records().push(payload@),
            final(self).committed() == old(self).committed(),
    {
        let offset = self.records.len();
        self.records.push(payload);
        proof {
            assert(self.records() =~= old(self).records().push(payload@));
        }
        offset
    }

    /// The oldest record that is not committed, with its offset. Until it
    /// is committed, the same record comes again.
    pub fn poll(&self) -> (next: Option<(usize, &Vec<u8>)>)
        requires
            self.wf(),
        ensures
            match next {
                Some((offset, payload)) => offset == self.committed() && offset
                    < self.records().len() && payload@ == self.records()[offset as int],
                None => self.committed() == self.records().len(),
            },
    {
        if self.committed < self.records.len() {
            Some((self.committed, &self.records[self.committed]))
        } else {
            None
        }
    }

    /// Commits the record at `offset` and all before it. Offsets only move
    /// forward, and never past what was published.
    pub fn commit(&mut self, offset: usize)
        requires
            old(self).wf(),
        ensures
            final(self).wf(),
            final(self).records() == old(self).records(),
            final(self).committed() == if old(self).committed() <= offset && offset < old(
                self,
            ).records().len() {
                (offset + 1) as nat
            } else {
                old(self).committed()
            },
    {
        if self.committed <= offset && offset < self.records.len() {
            self.committed = offset + 1;
        }
    }

    /// Number of records that were published.
    pub fn len(&self) -> (n: usize)
        ensures
            n == self.records().len(),
    {
        self.records.len()
    }
}

/// How a piece of work failed.
#[derive(Debug, Clone, Copy, PartialEq, Eq, Structural)]
pub enum Failure {
    /// The store or the bus did not answer; another try may succeed.
    Transient,
    /// The work can never succeed.
    Permanent,
}

/// What to do after a failure.
#[derive(Debug, Clone, Copy, PartialEq, Eq, Structural)]
pub enum RetryDecision {
    /// Try again after this many seconds.
    RetryAfter(u64),
    /// Give the record up to the dead-letter topic.
    DeadLetter,
}

/// How often and how patiently failed work is tried again.
#[derive(Debug, Clone, Copy, PartialEq, Eq, Structural)]
pub struct RetryPolicy {
    /// Seconds to wait before the second attempt.
    pub base_secs: u64,
    /// Longest wait between two attempts, in seconds.
    pub cap_secs: u64,
    /// Number of attempts after which the work is given up.
    pub max_attempts: u32,
}

/// Two to the power of `n`.
pub open spec fn pow2(n: nat) -> nat
    decreases n,
{
    if n == 0 {
        1
    } else {
        2 * pow2((n - 1) as nat)
    }
}

impl RetryPolicy {
    /// The wait after the given number of failed attempts: the base wait,
    /// doubled with every further failure, and never more than the cap.
    pub open spec fn spec_backoff(self, failed_attempts: nat) -> nat {
        if failed_attempts == 0 {
            0
        } else {
            let wait = self.base_secs * pow2((failed_attempts - 1) as nat);
            if wait > self.cap_secs {
                self.cap_secs as nat
            } else {
                wait as nat
            }
        }
    }

    /// What is to be done after a failure of the given kind, when this many
    /// attempts have failed so far.
    pub open spec fn spec_decide(self, failure: Failure, failed_attempts: u32) -> RetryDecision {
        if failure == Failure::Permanent || failed_attempts >= self.max_attempts {
            RetryDecision::DeadLetter
        } else {
            RetryDecision::RetryAfter(self.spec_backoff(failed_attempts as nat) as u64)
        }
    }

    /// The policy of the message processor: waits of 1, 2, 4 and 8 seconds,
    /// never more than 30, and five attempts in all.
    pub fn standard() -> (policy: RetryPolicy)
        ensures
            policy == (RetryPolicy { base_secs: 1, cap_secs: 30, max_attempts: 5 }),
    {
        RetryPolicy { base_secs: 1, cap_secs: 30, max_attempts: 5 }
    }

    /// Computes the wait after the given number of failed attempts.
    pub fn backoff(&self, failed_attempts: u32) -> (wait: u64)
        ensures
            wait == self.spec_backoff(failed_attempts as nat),
            wait <= self.cap_secs,
    {
        if failed_attempts == 0 {
            return 0;
        }
        if self.base_secs > self.cap_secs {
            proof {
                lemma_pow2_positive((failed_attempts - 1) as nat);
                assert(self.base_secs * pow2((failed_attempts - 1) as nat) >= self.base_secs)
                    by (nonlinear_arith)
                    requires
                        pow2((failed_attempts - 1) as nat) >= 1,
                ;
            }
            return self.cap_secs;
        }
        let mut wait: u64 = self.base_secs;
        let mut doubled: u32 = 0;
        assert(self.base_secs * pow2(0) == self.base_secs) by {
            assert(pow2(0) == 1);
        }
        while doubled < failed_attempts - 1
            invariant
                failed_attempts >= 1,
                doubled <= failed_attempts - 1,
                wait <= self.cap_secs,
                wait == self.base_secs * pow2(doubled as nat),
            decreases failed_attempts - 1 - doubled,
        {
            proof {
                lemma_pow2_monotone((doubled + 1) as nat, (failed_attempts - 1) as nat);
                assert(self.base_secs * pow2((doubled + 1) as nat) == 2 * (self.base_secs * pow2(
                    doubled as nat,
                ))) by (nonlinear_arith)
                    requires
                        pow2((doubled + 1) as nat) == 2 * pow2(doubled as nat),
                ;
            }
            if wait > self.cap_secs - wait {
                proof {
                    assert(self.base_secs * pow2((failed_attempts - 1) as nat) >= self.base_secs
                        * pow2((doubled + 1) as nat)) by (nonlinear_arith)
                        requires
                            pow2((failed_attempts - 1) as nat) >= pow2((doubled + 1) as nat),
                    ;
                }
                return self.cap_secs;
            }
            wait = wait + wait;
            doubled = doubled + 1;
        }
        wait
    }

    /// Decides what to do after a failure.
    pub fn decide(&self, failure: Failure, failed_attempts: u32) -> (decision: RetryDecision)
        ensures
            decision == self.spec_decide(failure, failed_attempts),
    {
        match failure {
            Failure::Permanent => RetryDecision::DeadLetter,
            Failure::Transient => {
                if failed_attempts >= self.max_attempts {
                    RetryDecision::DeadLetter
                } else {
                    RetryDecision::RetryAfter(self.backoff(failed_attempts))
                }
            },
        }
    }
}

/// Powers of two are positive.
pub proof fn lemma_pow2_positive(n: nat)
    ensures
        pow2(n) >= 1,
    decreases n,
{
    if n > 0 {
        lemma_pow2_positive((n - 1) as nat);
    }
}

/// Powers of two grow with the exponent.
pub proof fn lemma_pow2_monotone(a: nat, b: nat)
    requires
        a <= b,
    ensures
        pow2(a) <= pow2(b),
    decreases b,
{
    if a < b {
        lemma_pow2_monotone(a, (b - 1) as nat);
    }
}

} // verus!
