//! One conversation as the message processor sees it: who takes part, the
//! log of persisted envelopes, every participant's inbox and the delivery
//! records. All envelopes of a conversation reach it in the order in which
//! the gateway accepted them.

use vstd::prelude::*;
use crate::envelope::{
    day_bucket, processed_record, spec_day_bucket, EnvelopeView, MessageEnvelope,
    ProcessedMessage, ProcessedView, ReadReceiptUpdate,
};
use crate::models::GroupRole;

verus! {

/// Per user and conversation: how much is unread and what was seen last.
#[derive(Debug, Clone, Copy, PartialEq, Eq, Structural)]
pub struct InboxState {
    pub unread_count: u64,
    pub last_message_id: Option<u128>,
    pub last_seen_message_id: Option<u128>,
    pub last_message_at: Option<i64>,
}

/// A user's place in a conversation, with the inbox that belongs to it.
#[derive(Debug, Clone, Copy, PartialEq, Eq, Structural)]
pub struct Participant {
    pub user_id: u128,
    pub role: GroupRole,
    pub banned: bool,
    pub inbox: InboxState,
}

/// Per message and recipient: whether it was delivered and read, and when.
#[derive(Debug, Clone, Copy, PartialEq, Eq, Structural)]
pub struct DeliveryRecord {
    pub message_id: u128,
    pub user_id: u128,
    pub delivered: bool,
    pub delivered_at: Option<i64>,
    pub read: bool,
    pub read_at: Option<i64>,
}

/// One persisted envelope under its time bucket.
#[derive(Debug)]
pub struct LogEntry {
    pub bucket: i64,
    pub envelope: MessageEnvelope,
}

/// A log entry as mathematical values.
pub struct LogEntryView {
    pub bucket: i64,
    pub envelope: EnvelopeView,
}

impl View for LogEntry {
    type V = LogEntryView;

    open spec fn view(&self) -> LogEntryView {
        LogEntryView { bucket: self.bucket, envelope: self.envelope@ }
    }
}

/// The entry under which an envelope is persisted.
pub open spec fn log_entry(e: EnvelopeView) -> LogEntryView {
    LogEntryView { bucket: spec_day_bucket(e.received_at) as i64, envelope: e }
}

/// The delivery record created for `user` when a message of `sender` is
/// persisted at `now`: the author has it at once, everybody else not yet.
pub open spec fn delivery_record(user: u128, message_id: u128, sender: u128, now: i64)
    -> DeliveryRecord {
    DeliveryRecord {
        message_id,
        user_id: user,
        delivered: user == sender,
        delivered_at: if user == sender { Some(now) } else { None },
        read: false,
        read_at: None,
    }
}

/// The inbox of a participant after envelope `e` has been persisted. The
/// author has seen the message and has nothing unread; every other
/// participant has one more unread message. Banned users are left alone.
pub open spec fn inbox_after(p: Participant, e: EnvelopeView) -> Participant {
    if p.banned {
        p
    } else if p.user_id == e.sender_id {
        Participant {
            inbox: InboxState {
                unread_count: 0,
                last_seen_message_id: Some(e.message_id),
                ..p.inbox
            },
            ..p
        }
    } else {
        Participant {
            inbox: InboxState {
                unread_count: (p.inbox.unread_count + 1) as u64,
                last_message_id: Some(e.message_id),
                last_message_at: Some(e.received_at),
                ..p.inbox
            },
            ..p
        }
    }
}

/// The users of `ps` that are not banned, in the order of `ps`.
pub open spec fn active_ids(ps: Seq<Participant>) -> Seq<u128>
    decreases ps.len(),
{
    if ps.len() == 0 {
        Seq::empty()
    } else if ps.last().banned {
        active_ids(ps.drop_last())
    } else {
        active_ids(ps.drop_last()).push(ps.last().user_id)
    }
}

/// Number of messages in `log` that `user` has not seen: those of other
/// authors that follow the message `last_seen` (all of them, where nothing
/// was seen yet).
pub open spec fn unread_after(log: Seq<LogEntryView>, user: u128, last_seen: Option<u128>) -> nat
    decreases log.len(),
{
    if log.len() == 0 {
        0
    } else if last_seen == Some(log.last().envelope.message_id) {
        0
    } else {
        unread_after(log.drop_last(), user, last_seen) + if log.last().envelope.sender_id
            != user {
            1nat
        } else {
            0nat
        }
    }
}

/// A delivery record after `user` has read `message_id` at `at`: the record
/// of that message and user is marked, every other one is left alone.
pub open spec fn mark_read(d: DeliveryRecord, message_id: u128, user: u128, at: i64)
    -> DeliveryRecord {
    if d.message_id == message_id && d.user_id == user {
        DeliveryRecord { read: true, read_at: Some(at), ..d }
    } else {
        d
    }
}

/// Whether two delivery records are about the same message and recipient.
pub open spec fn same_delivery(a: DeliveryRecord, b: DeliveryRecord) -> bool {
    a.message_id == b.message_id && a.user_id == b.user_id
}

/// The place among `ps` of the participant who stands at place `k` among
/// the members in good standing.
pub open spec fn active_origin(ps: Seq<Participant>, k: int) -> int
    decreases ps.len(),
{
    if ps.len() == 0 {
        0
    } else if !ps.last().banned && k == active_ids(ps.drop_last()).len() {
        ps.len() - 1
    } else {
        active_origin(ps.drop_last(), k)
    }
}

/// The first record of `message_id` for `user` among `deliveries`.
pub open spec fn first_delivery(deliveries: Seq<DeliveryRecord>, message_id: u128, user: u128)
    -> Option<DeliveryRecord>
    decreases deliveries.len(),
{
    if deliveries.len() == 0 {
        None
    } else if deliveries[0].message_id == message_id && deliveries[0].user_id == user {
        Some(deliveries[0])
    } else {
        first_delivery(deliveries.skip(1), message_id, user)
    }
}

/// The newer of an optional instant and `at`.
pub open spec fn later_of(last: Option<i64>, at: i64) -> Option<i64> {
    match last {
        Some(t) => if at > t { Some(at) } else { Some(t) },
        None => Some(at),
    }
}

/// A conversation as mathematical values.
pub struct ConversationView {
    pub id: u128,
    pub participants: Seq<Participant>,
    pub log: Seq<LogEntryView>,
    pub deliveries: Seq<DeliveryRecord>,
    pub last_message_at: Option<i64>,
}

/// What the processor decides for one envelope.
pub enum OutcomeView {
    /// The envelope is not for this conversation, or its author is not a
    /// member in good standing: nothing is stored and nothing is published.
    Dropped,
    /// The message is in the log already: nothing is stored, and the stored
    /// envelope is published once more.
    Replayed(ProcessedView),
    /// The envelope was persisted and is published.
    Accepted(ProcessedView),
}

impl ConversationView {
    /// A conversation without participants or messages.
    pub open spec fn empty(id: u128) -> ConversationView {
        ConversationView {
            id,
            participants: Seq::empty(),
            log: Seq::empty(),
            deliveries: Seq::empty(),
            last_message_at: None,
        }
    }

    /// Whether `user` has a place in the conversation, banned or not.
    pub open spec fn has_participant(self, user: u128) -> bool {
        exists|i: int| 0 <= i < self.participants.len() && self.participants[i].user_id == user
    }

    /// Whether `user` is a member in good standing.
    pub open spec fn is_member(self, user: u128) -> bool {
        exists|i: int|
            0 <= i < self.participants.len() && self.participants[i].user_id == user
                && !self.participants[i].banned
    }

    /// Whether a message with this id is in the log.
    pub open spec fn logged(self, message_id: u128) -> bool {
        exists|i: int| 0 <= i < self.log.len() && self.log[i].envelope.message_id == message_id
    }

    /// The place in the log of a logged message.
    pub open spec fn index_of(self, message_id: u128) -> int {
        choose|i: int| 0 <= i < self.log.len() && self.log[i].envelope.message_id == message_id
    }

    /// Whether the envelope is for this conversation and from a member.
    pub open spec fn admits(self, e: EnvelopeView) -> bool {
        e.conversation_id == self.id && self.is_member(e.sender_id)
    }

    /// Whether the envelope is admitted and new, so that it will be stored.
    pub open spec fn accepts(self, e: EnvelopeView) -> bool {
        self.admits(e) && !self.logged(e.message_id)
    }

    /// The conversation's invariant.
    pub open spec fn valid(self) -> bool {
        &&& forall|i: int, j: int|
            0 <= i < j < self.participants.len() ==> self.participants[i].user_id
                != self.participants[j].user_id
        &&& forall|i: int, j: int|
            0 <= i < j < self.log.len() ==> self.log[i].envelope.message_id
                != self.log[j].envelope.message_id
        &&& forall|i: int|
            0 <= i < self.log.len() ==> {
                &&& (#[trigger] self.log[i]).envelope.conversation_id == self.id
                &&& self.log[i].bucket == spec_day_bucket(self.log[i].envelope.received_at)
            }
        &&& forall|i: int|
            0 <= i < self.participants.len() && !(#[trigger] self.participants[i]).banned
                ==> self.participants[i].inbox.unread_count == unread_after(
                self.log,
                self.participants[i].user_id,
                self.participants[i].inbox.last_seen_message_id,
            )
        &&& forall|i: int|
            0 <= i < self.participants.len() && !(#[trigger] self.participants[i]).banned
                ==> self.seen_is_logged(self.participants[i].inbox.last_seen_message_id)
        &&& forall|i: int|
            0 <= i < self.deliveries.len() ==> self.logged(
                (#[trigger] self.deliveries[i]).message_id,
            )
        &&& forall|i: int, j: int|
            0 <= i < j < self.deliveries.len() ==> !same_delivery(
                self.deliveries[i],
                self.deliveries[j],
            )
    }

    /// Whether what a user has seen last, if anything, is in the log.
    pub open spec fn seen_is_logged(self, last_seen: Option<u128>) -> bool {
        match last_seen {
            Some(id) => self.logged(id),
            None => true,
        }
    }

    /// The id of the newest message in the log, if there is one.
    pub open spec fn last_logged(self) -> Option<u128> {
        if self.log.len() == 0 {
            None
        } else {
            Some(self.log.last().envelope.message_id)
        }
    }

    /// The inbox of somebody who enters now: nothing is unread, and all that
    /// is in the log counts as seen.
    pub open spec fn fresh_inbox(self) -> InboxState {
        InboxState {
            unread_count: 0,
            last_message_id: None,
            last_seen_message_id: self.last_logged(),
            last_message_at: None,
        }
    }

    /// The place of a participant among the participants.
    pub open spec fn participant_index(self, user: u128) -> int {
        choose|i: int| 0 <= i < self.participants.len() && self.participants[i].user_id == user
    }

    /// The conversation after `user` has joined with `role`. Somebody who
    /// has a place already keeps it as it is.
    pub open spec fn with_member(self, user: u128, role: GroupRole) -> ConversationView {
        if self.has_participant(user) {
            self
        } else {
            ConversationView {
                participants: self.participants.push(
                    Participant { user_id: user, role, banned: false, inbox: self.fresh_inbox() },
                ),
                ..self
            }
        }
    }

    /// The conversation after `user` has left it for good.
    pub open spec fn without_member(self, user: u128) -> ConversationView {
        if self.has_participant(user) {
            ConversationView {
                participants: self.participants.remove(self.participant_index(user)),
                ..self
            }
        } else {
            self
        }
    }

    /// The conversation after the ban on `user` has been set or lifted.
    /// Lifting a ban starts the inbox afresh.
    pub open spec fn with_ban(self, user: u128, banned: bool) -> ConversationView {
        if self.has_participant(user) {
            let i = self.participant_index(user);
            let p = self.participants[i];
            let q = if banned {
                Participant { banned: true, ..p }
            } else if p.banned {
                Participant { banned: false, inbox: self.fresh_inbox(), ..p }
            } else {
                p
            };
            ConversationView { participants: self.participants.update(i, q), ..self }
        } else {
            self
        }
    }

    /// The conversation after `user` has read `message_id` at `at`.
    pub open spec fn with_read(self, message_id: u128, user: u128, at: i64) -> ConversationView {
        ConversationView {
            deliveries: Seq::new(
                self.deliveries.len(),
                |i: int| mark_read(self.deliveries[i], message_id, user, at),
            ),
            ..self
        }
    }

    /// The delivery record of `message_id` for `user`, if there is one.
    pub open spec fn delivery_of(self, message_id: u128, user: u128) -> Option<DeliveryRecord> {
        first_delivery(self.deliveries, message_id, user)
    }

    /// What a client that has seen `last_seen` has missed: the envelopes
    /// that follow it in the log, or the whole log where the client has
    /// seen nothing or names a message that the log does not have.
    pub open spec fn missed_after(self, last_seen: Option<u128>) -> Seq<EnvelopeView> {
        let from = match last_seen {
            Some(id) => if self.logged(id) {
                self.index_of(id) + 1
            } else {
                0
            },
            None => 0,
        };
        Seq::new((self.log.len() - from) as nat, |i: int| self.log[from + i].envelope)
    }

    /// The delivery records that persisting `e` at `now` adds: one for every
    /// member in good standing.
    pub open spec fn new_deliveries(self, e: EnvelopeView, now: i64) -> Seq<DeliveryRecord> {
        let ids = active_ids(self.participants);
        Seq::new(ids.len(), |i: int| delivery_record(ids[i], e.message_id, e.sender_id, now))
    }

    /// The conversation after the processor has handled envelope `e` at
    /// `now`. An envelope that is not accepted leaves everything as it is.
    pub open spec fn after(self, e: EnvelopeView, now: i64) -> ConversationView {
        if self.accepts(e) {
            ConversationView {
                id: self.id,
                participants: Seq::new(
                    self.participants.len(),
                    |i: int| inbox_after(self.participants[i], e),
                ),
                log: self.log.push(log_entry(e)),
                deliveries: self.deliveries + self.new_deliveries(e, now),
                last_message_at: later_of(self.last_message_at, e.received_at),
            }
        } else {
            self
        }
    }

    /// What the processor answers for envelope `e`.
    pub open spec fn outcome(self, e: EnvelopeView) -> OutcomeView {
        if !self.admits(e) {
            OutcomeView::Dropped
        } else if self.logged(e.message_id) {
            OutcomeView::Replayed(processed_record(self.log[self.index_of(e.message_id)].envelope))
        } else {
            OutcomeView::Accepted(processed_record(e))
        }
    }

    /// The records that handling `e` puts on `processed-messages`.
    pub open spec fn emission(self, e: EnvelopeView) -> Seq<ProcessedView> {
        match self.outcome(e) {
            OutcomeView::Dropped => Seq::empty(),
            OutcomeView::Replayed(r) => seq![r],
            OutcomeView::Accepted(r) => seq![r],
        }
    }
}

/// What the processor decided for one envelope.
#[derive(Debug)]
pub enum Outcome {
    /// Nothing was stored and nothing is to be published.
    Dropped,
    /// The message was in the log already; the stored envelope is to be
    /// published once more.
    Replayed(ProcessedMessage),
    /// The envelope was persisted and is to be published.
    Accepted(ProcessedMessage),
}

impl View for Outcome {
    type V = OutcomeView;

    open spec fn view(&self) -> OutcomeView {
        match *self {
            Outcome::Dropped => OutcomeView::Dropped,
            Outcome::Replayed(r) => OutcomeView::Replayed(r@),
            Outcome::Accepted(r) => OutcomeView::Accepted(r@),
        }
    }
}

/// The views of the entries of a log.
pub open spec fn log_view(log: Seq<LogEntry>) -> Seq<LogEntryView> {
    Seq::new(log.len(), |i: int| log[i]@)
}

/// Builds the delivery records of one message, one for each of
/// `participants` and in their order.
pub fn create_delivery_status(
    message_id: u128,
    participants: &Vec<u128>,
    sender_id: u128,
    now: i64,
) -> (records: Vec<DeliveryRecord>)
    ensures
        records@ == Seq::new(
            participants@.len(),
            |i: int| delivery_record(participants@[i], message_id, sender_id, now),
        ),
{
    let mut records: Vec<DeliveryRecord> = Vec::new();
    let mut i: usize = 0;
    while i < participants.len()
        invariant
            i <= participants.len(),
            records@.len() == i,
            forall|j: int|
                0 <= j < i ==> records@[j] == delivery_record(
                    participants@[j],
                    message_id,
                    sender_id,
                    now,
                ),
        decreases participants.len() - i,
    {
        let user_id = participants[i];
        let delivered = user_id == sender_id;
        records.push(
            DeliveryRecord {
                message_id,
                user_id,
                delivered,
                delivered_at: if delivered { Some(now) } else { None },
                read: false,
                read_at: None,
            },
        );
        i = i + 1;
    }
    assert(records@ =~= Seq::new(
        participants@.len(),
        |i: int| delivery_record(participants@[i], message_id, sender_id, now),
    ));
    records
}

/// A conversation held by the message processor.
#[derive(Debug)]
pub struct ConversationState {
    id: u128,
    participants: Vec<Participant>,
    log: Vec<LogEntry>,
    deliveries: Vec<DeliveryRecord>,
    last_message_at: Option<i64>,
}

impl View for ConversationState {
    type V = ConversationView;

    closed spec fn view(&self) -> ConversationView {
        ConversationView {
            id: self.id,
            participants: self.participants@,
            log: log_view(self.log@),
            deliveries: self.deliveries@,
            last_message_at: self.last_message_at,
        }
    }
}

impl ConversationState {
    /// Whether the conversation's invariant holds.
    pub open spec fn wf(&self) -> bool {
        self@.valid()
    }

    /// A conversation without participants or messages.
    pub fn new(id: u128) -> (c: ConversationState)
        ensures
            c@ == ConversationView::empty(id),
            c.wf(),
    {
        let c = ConversationState {
            id,
            participants: Vec::new(),
            log: Vec::new(),
            deliveries: Vec::new(),
            last_message_at: None,
        };
        assert(c@.log =~= Seq::empty());
        c
    }

    /// The conversation's id.
    pub fn id(&self) -> (id: u128)
        ensures
            id == self@.id,
    {
        self.id
    }

    /// Number of messages in the log.
    pub fn log_len(&self) -> (n: usize)
        ensures
            n == self@.log.len(),
    {
        self.log.len()
    }

    /// The instant of the newest message, if there is any.
    pub fn last_message_at(&self) -> (at: Option<i64>)
        ensures
            at == self@.last_message_at,
    {
        self.last_message_at
    }

    /// The place of `user` among the participants.
    pub fn find_participant(&self, user: u128) -> (found: Option<usize>)
        ensures
            match found {
                Some(i) => i < self@.participants.len() && self@.participants[i as int].user_id
                    == user,
                None => !self@.has_participant(user),
            },
    {
        let mut i: usize = 0;
        while i < self.participants.len()
            invariant
                i <= self.participants.len(),
                forall|j: int| 0 <= j < i ==> self.participants@[j].user_id != user,
            decreases self.participants.len() - i,
        {
            if self.participants[i].user_id == user {
                return Some(i);
            }
            i = i + 1;
        }
        None
    }

    /// Whether `user` is a member in good standing. Banned users are not.
    pub fn is_member(&self, user: u128) -> (member: bool)
        requires
            self.wf(),
        ensures
            member == self@.is_member(user),
    {
        match self.find_participant(user) {
            Some(i) => {
                let banned = self.participants[i].banned;
                assert(banned ==> !self@.is_member(user));
                !banned
            },
            None => false,
        }
    }

    /// The participant record of `user`, with the inbox.
    pub fn participant(&self, user: u128) -> (found: Option<Participant>)
        requires
            self.wf(),
        ensures
            found == if self@.has_participant(user) {
                Some(self@.participants[self@.participant_index(user)])
            } else {
                None
            },
    {
        match self.find_participant(user) {
            Some(i) => {
                proof {
                    lemma_participant_index(self@, user, i as int);
                }
                Some(self.participants[i])
            },
            None => None,
        }
    }

    /// The members in good standing, in the order in which they joined.
    pub fn list_members(&self) -> (ids: Vec<u128>)
        ensures
            ids@ == active_ids(self@.participants),
    {
        let mut ids: Vec<u128> = Vec::new();
        let mut i: usize = 0;
        while i < self.participants.len()
            invariant
                i <= self.participants.len(),
                ids@ == active_ids(self.participants@.take(i as int)),
            decreases self.participants.len() - i,
        {
            assert(self.participants@.take(i as int + 1).drop_last() =~= self.participants@.take(
                i as int,
            ));
            if !self.participants[i].banned {
                ids.push(self.participants[i].user_id);
            }
            i = i + 1;
        }
        assert(self.participants@.take(self.participants.len() as int) =~= self.participants@);
        ids
    }

    /// The place in the log of the message with this id.
    pub fn find_message(&self, message_id: u128) -> (found: Option<usize>)
        requires
            self.wf(),
        ensures
            match found {
                Some(i) => self@.logged(message_id) && i == self@.index_of(message_id),
                None => !self@.logged(message_id),
            },
    {
        let mut i: usize = 0;
        while i < self.log.len()
            invariant
                self.wf(),
                i <= self.log.len(),
                forall|j: int| 0 <= j < i ==> self@.log[j].envelope.message_id != message_id,
            decreases self.log.len() - i,
        {
            if self.log[i].envelope.message_id == message_id {
                proof {
                    let k = self@.index_of(message_id);
                    assert(self@.log[i as int].envelope.message_id == message_id);
                    assert(0 <= k < self@.log.len() && self@.log[k].envelope.message_id
                        == message_id);
                    assert(k == i) by {
                        if k < i {
                            assert(self@.log[k].envelope.message_id
                                != self@.log[i as int].envelope.message_id);
                        } else if i < k {
                            assert(self@.log[i as int].envelope.message_id
                                != self@.log[k].envelope.message_id);
                        }
                    }
                }
                return Some(i);
            }
            i = i + 1;
        }
        None
    }

    /// The log entry at place `index`.
    pub fn entry(&self, index: usize) -> (e: &LogEntry)
        requires
            index < self@.log.len(),
        ensures
            e@ == self@.log[index as int],
    {
        &self.log[index]
    }

    /// Reads the log forward for a client that comes back: the envelopes
    /// that follow the message it has seen last.
    pub fn history_after(&self, last_seen: Option<u128>) -> (missed: Vec<MessageEnvelope>)
        requires
            self.wf(),
        ensures
            missed@.len() == self@.missed_after(last_seen).len(),
            forall|i: int|
                0 <= i < missed@.len() ==> (#[trigger] missed@[i])@ == self@.missed_after(
                    last_seen,
                )[i],
    {
        let stored = self.log.len();
        let from: usize = match last_seen {
            Some(id) => match self.find_message(id) {
                Some(k) => {
                    assert(k < stored);
                    k + 1
                },
                None => 0,
            },
            None => 0,
        };
        let mut missed: Vec<MessageEnvelope> = Vec::new();
        let mut i: usize = from;
        while i < self.log.len()
            invariant
                from <= i <= self.log.len(),
                missed@.len() == i - from,
                forall|j: int|
                    0 <= j < missed@.len() ==> (#[trigger] missed@[j])@ == self@.log[from
                        + j].envelope,
            decreases self.log.len() - i,
        {
            missed.push(self.log[i].envelope.clone());
            i = i + 1;
        }
        missed
    }

    /// The delivery record of `message_id` for `user`, if there is one.
    pub fn delivery(&self, message_id: u128, user: u128) -> (found: Option<DeliveryRecord>)
        ensures
            found == self@.delivery_of(message_id, user),
    {
        let mut i: usize = 0;
        proof {
            assert(self.deliveries@.skip(0) =~= self.deliveries@);
        }
        while i < self.deliveries.len()
            invariant
                i <= self.deliveries.len(),
                first_delivery(self.deliveries@, message_id, user) == first_delivery(
                    self.deliveries@.skip(i as int),
                    message_id,
                    user,
                ),
            decreases self.deliveries.len() - i,
        {
            assert(self.deliveries@.skip(i as int)[0] == self.deliveries@[i as int]);
            if self.deliveries[i].message_id == message_id && self.deliveries[i].user_id == user {
                return Some(self.deliveries[i]);
            }
            proof {
                assert(self.deliveries@.skip(i as int).skip(1) =~= self.deliveries@.skip(
                    i as int + 1,
                ));
            }
            i = i + 1;
        }
        None
    }

    /// Lets `user` join with `role`. Returns whether the user was added;
    /// somebody who has a place already keeps it.
    pub fn add_member(&mut self, user: u128, role: GroupRole) -> (added: bool)
        requires
            old(self).wf(),
        ensures
            final(self).wf(),
            final(self)@ == old(self)@.with_member(user, role),
            added == !old(self)@.has_participant(user),
    {
        if self.find_participant(user).is_some() {
            return false;
        }
        let last_seen = if self.log.len() == 0 {
            None
        } else {
            Some(self.log[self.log.len() - 1].envelope.message_id)
        };
        let inbox = InboxState {
            unread_count: 0,
            last_message_id: None,
            last_seen_message_id: last_seen,
            last_message_at: None,
        };
        self.participants.push(Participant { user_id: user, role, banned: false, inbox });
        proof {
            let s = old(self)@;
            assert(self@.participants =~= s.with_member(user, role).participants);
            lemma_with_member_valid(s, user, role);
        }
        true
    }

    /// Takes `user` out of the conversation. Returns whether there was
    /// anybody to take out.
    pub fn remove_member(&mut self, user: u128) -> (removed: bool)
        requires
            old(self).wf(),
        ensures
            final(self).wf(),
            final(self)@ == old(self)@.without_member(user),
            removed == old(self)@.has_participant(user),
    {
        match self.find_participant(user) {
            Some(i) => {
                proof {
                    lemma_participant_index(self@, user, i as int);
                    lemma_without_member_valid(self@, user);
                }
                let _ = self.participants.remove(i);
                true
            },
            None => false,
        }
    }

    /// Sets or lifts the ban on `user`. Returns whether the user has a place
    /// in the conversation.
    pub fn set_banned(&mut self, user: u128, banned: bool) -> (found: bool)
        requires
            old(self).wf(),
        ensures
            final(self).wf(),
            final(self)@ == old(self)@.with_ban(user, banned),
            found == old(self)@.has_participant(user),
    {
        match self.find_participant(user) {
            Some(i) => {
                proof {
                    lemma_participant_index(self@, user, i as int);
                    lemma_with_ban_valid(self@, user, banned);
                }
                if banned {
                    self.participants[i].banned = true;
                } else if self.participants[i].banned {
                    let last_seen = if self.log.len() == 0 {
                        None
                    } else {
                        Some(self.log[self.log.len() - 1].envelope.message_id)
                    };
                    self.participants[i].banned = false;
                    self.participants[i].inbox = InboxState {
                        unread_count: 0,
                        last_message_id: None,
                        last_seen_message_id: last_seen,
                        last_message_at: None,
                    };
                }
                proof {
                    assert(self@.participants =~= old(self)@.with_ban(user, banned).participants);
                }
                true
            },
            None => false,
        }
    }

    /// Records that `user` has read `message_id` at `at` and builds the
    /// notice for the author's gateway.
    pub fn handle_read_receipt(&mut self, user: u128, message_id: u128, at: i64) -> (notice:
        ReadReceiptUpdate)
        requires
            old(self).wf(),
        ensures
            final(self).wf(),
            final(self)@ == old(self)@.with_read(message_id, user, at),
            notice == (ReadReceiptUpdate { user_id: user, message_id, read_at: at }),
    {
        let mut i: usize = 0;
        while i < self.deliveries.len()
            invariant
                i <= self.deliveries.len(),
                self.deliveries.len() == old(self).deliveries.len(),
                self.id == old(self).id,
                self.log == old(self).log,
                self.participants == old(self).participants,
                self.last_message_at == old(self).last_message_at,
                forall|j: int|
                    0 <= j < i ==> self.deliveries@[j] == mark_read(
                        old(self).deliveries@[j],
                        message_id,
                        user,
                        at,
                    ),
                forall|j: int|
                    i <= j < self.deliveries.len() ==> self.deliveries@[j] == old(
                        self,
                    ).deliveries@[j],
            decreases self.deliveries.len() - i,
        {
            if self.deliveries[i].message_id == message_id && self.deliveries[i].user_id == user {
                self.deliveries[i].read = true;
                self.deliveries[i].read_at = Some(at);
            }
            i = i + 1;
        }
        proof {
            assert(self@.deliveries =~= old(self)@.with_read(message_id, user, at).deliveries);
            lemma_with_read_valid(old(self)@, message_id, user, at);
        }
        ReadReceiptUpdate { user_id: user, message_id, read_at: at }
    }

    /// Handles one envelope: checks the author's membership, persists the
    /// envelope unless its message is in the log already, moves the
    /// conversation's newest instant forward, updates every member's inbox
    /// and creates the delivery records.
    pub fn process(&mut self, envelope: &MessageEnvelope, now: i64) -> (out: Outcome)
        requires
            old(self).wf(),
        ensures
            final(self).wf(),
            final(self)@ == old(self)@.after(envelope@, now),
            out@ == old(self)@.outcome(envelope@),
    {
        if envelope.conversation_id != self.id || !self.is_member(envelope.sender_id) {
            return Outcome::Dropped;
        }
        match self.find_message(envelope.message_id) {
            Some(k) => {
                return Outcome::Replayed(ProcessedMessage::from_envelope(&self.log[k].envelope));
            },
            None => {},
        }
        self.log.push(
            LogEntry { bucket: day_bucket(envelope.received_at), envelope: envelope.clone() },
        );
        let stored = self.log.len();
        proof {
            assert(old(self)@.log.len() + 1 == stored);
            lemma_after_valid(old(self)@, envelope@, now);
        }
        let ghost log = self.log;
        let ids = self.list_members();
        let mut records = create_delivery_status(
            envelope.message_id,
            &ids,
            envelope.sender_id,
            now,
        );
        let mut i: usize = 0;
        while i < self.participants.len()
            invariant
                i <= self.participants.len(),
                self.participants.len() == old(self).participants.len(),
                old(self)@.valid(),
                old(self)@.log.len() < usize::MAX,
                self.id == old(self).id,
                self.log == log,
                self.deliveries == old(self).deliveries,
                self.last_message_at == old(self).last_message_at,
                forall|j: int|
                    0 <= j < i ==> self.participants@[j] == inbox_after(
                        old(self).participants@[j],
                        envelope@,
                    ),
                forall|j: int|
                    i <= j < self.participants.len() ==> self.participants@[j] == old(
                        self,
                    ).participants@[j],
            decreases self.participants.len() - i,
        {
            let p = self.participants[i];
            if !p.banned {
                if p.user_id == envelope.sender_id {
                    self.participants[i].inbox.unread_count = 0;
                    self.participants[i].inbox.last_seen_message_id = Some(envelope.message_id);
                } else {
                    proof {
                        lemma_unread_bounded(
                            old(self)@.log,
                            p.user_id,
                            p.inbox.last_seen_message_id,
                        );
                        assert(old(self)@.participants[i as int] == p);
                        assert(p.inbox.unread_count == unread_after(
                            old(self)@.log,
                            p.user_id,
                            p.inbox.last_seen_message_id,
                        ));
                    }
                    self.participants[i].inbox.unread_count = p.inbox.unread_count + 1;
                    self.participants[i].inbox.last_message_id = Some(envelope.message_id);
                    self.participants[i].inbox.last_message_at = Some(envelope.received_at);
                }
            }
            i = i + 1;
        }
        self.deliveries.append(&mut records);
        self.last_message_at = match self.last_message_at {
            Some(t) => if envelope.received_at > t { Some(envelope.received_at) } else { Some(t) },
            None => Some(envelope.received_at),
        };
        proof {
            let t = old(self)@.after(envelope@, now);
            assert(self@.participants =~= t.participants);
            assert(self@.log =~= t.log);
            assert(self@.deliveries =~= t.deliveries);
        }
        Outcome::Accepted(ProcessedMessage::from_envelope(envelope))
    }
}

/// Where user ids are distinct, the place of a participant is the one at
/// which the user is found.
pub proof fn lemma_participant_index(s: ConversationView, user: u128, i: int)
    requires
        s.valid(),
        0 <= i < s.participants.len(),
        s.participants[i].user_id == user,
    ensures
        s.has_participant(user),
        s.participant_index(user) == i,
{
    let k = s.participant_index(user);
    assert(0 <= k < s.participants.len() && s.participants[k].user_id == user);
    if k < i {
        assert(s.participants[k].user_id != s.participants[i].user_id);
    } else if i < k {
        assert(s.participants[i].user_id != s.participants[k].user_id);
    }
}

/// Nothing is unread for somebody who has seen the newest message.
pub proof fn lemma_fresh_inbox(s: ConversationView, user: u128)
    ensures
        unread_after(s.log, user, s.last_logged()) == 0,
        s.seen_is_logged(s.last_logged()),
{
    if s.log.len() > 0 {
        assert(s.log[s.log.len() - 1].envelope.message_id == s.log.last().envelope.message_id);
    }
}

/// Joining keeps the conversation's invariant.
pub proof fn lemma_with_member_valid(s: ConversationView, user: u128, role: GroupRole)
    requires
        s.valid(),
    ensures
        s.with_member(user, role).valid(),
{
    if !s.has_participant(user) {
        let t = s.with_member(user, role);
        lemma_fresh_inbox(s, user);
        assert forall|i: int, j: int|
            0 <= i < j < t.participants.len() implies t.participants[i].user_id
            != t.participants[j].user_id by {
            if j == s.participants.len() {
                assert(s.participants[i].user_id != user);
            }
        }
        assert forall|i: int|
            0 <= i < t.participants.len() && !(#[trigger] t.participants[i]).banned implies
            t.participants[i].inbox.unread_count
            == unread_after(
            t.log,
            t.participants[i].user_id,
            t.participants[i].inbox.last_seen_message_id,
        ) && t.seen_is_logged(t.participants[i].inbox.last_seen_message_id) by {
            if i < s.participants.len() {
                assert(t.participants[i] == s.participants[i]);
                assert(s.seen_is_logged(s.participants[i].inbox.last_seen_message_id));
            }
        }
    }
}

/// Leaving keeps the conversation's invariant.
pub proof fn lemma_without_member_valid(s: ConversationView, user: u128)
    requires
        s.valid(),
    ensures
        s.without_member(user).valid(),
{
    if s.has_participant(user) {
        let t = s.without_member(user);
        let k = s.participant_index(user);
        assert forall|i: int|
            0 <= i < t.participants.len() && !(#[trigger] t.participants[i]).banned implies
            t.participants[i].inbox.unread_count
            == unread_after(
            t.log,
            t.participants[i].user_id,
            t.participants[i].inbox.last_seen_message_id,
        ) && t.seen_is_logged(t.participants[i].inbox.last_seen_message_id) by {
            let j = if i < k { i } else { i + 1 };
            assert(t.participants[i] == s.participants[j]);
            assert(s.seen_is_logged(s.participants[j].inbox.last_seen_message_id));
        }
        assert forall|i: int, j: int|
            0 <= i < j < t.participants.len() implies t.participants[i].user_id
            != t.participants[j].user_id by {
            let i2 = if i < k { i } else { i + 1 };
            let j2 = if j < k { j } else { j + 1 };
            assert(s.participants[i2].user_id != s.participants[j2].user_id);
        }
    }
}

/// Setting or lifting a ban keeps the conversation's invariant.
pub proof fn lemma_with_ban_valid(s: ConversationView, user: u128, banned: bool)
    requires
        s.valid(),
    ensures
        s.with_ban(user, banned).valid(),
{
    if s.has_participant(user) {
        let t = s.with_ban(user, banned);
        let k = s.participant_index(user);
        lemma_fresh_inbox(s, user);
        assert forall|i: int|
            0 <= i < t.participants.len() && !(#[trigger] t.participants[i]).banned implies
            t.participants[i].inbox.unread_count
            == unread_after(
            t.log,
            t.participants[i].user_id,
            t.participants[i].inbox.last_seen_message_id,
        ) && t.seen_is_logged(t.participants[i].inbox.last_seen_message_id) by {
            if i != k {
                assert(t.participants[i] == s.participants[i]);
            } else {
                assert(!banned);
            }
            assert(!s.participants[i].banned ==> s.seen_is_logged(
                s.participants[i].inbox.last_seen_message_id,
            ));
        }
        assert forall|i: int, j: int|
            0 <= i < j < t.participants.len() implies t.participants[i].user_id
            != t.participants[j].user_id by {
            assert(s.participants[i].user_id != s.participants[j].user_id);
        }
    }
}

/// Marking a message as read keeps the conversation's invariant.
pub proof fn lemma_with_read_valid(s: ConversationView, message_id: u128, user: u128, at: i64)
    requires
        s.valid(),
    ensures
        s.with_read(message_id, user, at).valid(),
{
    let t = s.with_read(message_id, user, at);
    assert forall|i: int| 0 <= i < t.deliveries.len() implies t.logged(
        (#[trigger] t.deliveries[i]).message_id,
    ) by {
        assert(s.logged(s.deliveries[i].message_id));
    }
    assert forall|i: int, j: int| 0 <= i < j < t.deliveries.len() implies !same_delivery(
        t.deliveries[i],
        t.deliveries[j],
    ) by {
        assert(!same_delivery(s.deliveries[i], s.deliveries[j]));
    }
    assert forall|i: int|
        0 <= i < t.participants.len() && !(#[trigger] t.participants[i]).banned implies
            t.seen_is_logged(
        t.participants[i].inbox.last_seen_message_id,
    ) by {
        assert(s.seen_is_logged(s.participants[i].inbox.last_seen_message_id));
    }
}

/// The members in good standing stand in the order of the participants.
pub proof fn lemma_active_origin(ps: Seq<Participant>, i: int, j: int)
    requires
        0 <= i <= j < active_ids(ps).len(),
    ensures
        0 <= active_origin(ps, i) <= active_origin(ps, j) < ps.len(),
        i < j ==> active_origin(ps, i) < active_origin(ps, j),
        ps[active_origin(ps, i)].user_id == active_ids(ps)[i],
        ps[active_origin(ps, j)].user_id == active_ids(ps)[j],
        !ps[active_origin(ps, i)].banned,
    decreases ps.len(),
{
    let rest = ps.drop_last();
    if !ps.last().banned && j == active_ids(rest).len() {
        if i < j {
            lemma_active_origin(rest, i, i);
        }
    } else {
        lemma_active_origin(rest, i, j);
    }
}

/// No message is unread more often than the log is long.
pub proof fn lemma_unread_bounded(log: Seq<LogEntryView>, user: u128, last_seen: Option<u128>)
    ensures
        unread_after(log, user, last_seen) <= log.len(),
    decreases log.len(),
{
    if log.len() > 0 && last_seen != Some(log.last().envelope.message_id) {
        lemma_unread_bounded(log.drop_last(), user, last_seen);
    }
}

/// Handling an envelope keeps the conversation's invariant.
pub proof fn lemma_after_valid(s: ConversationView, e: EnvelopeView, now: i64)
    requires
        s.valid(),
        s.log.len() < u64::MAX,
    ensures
        s.after(e, now).valid(),
{
    if s.accepts(e) {
        let t = s.after(e, now);
        let entry = log_entry(e);
        assert(t.log.drop_last() =~= s.log);
        assert(t.log.last() == entry);
        assert forall|i: int, j: int| 0 <= i < j < t.log.len() implies t.log[i].envelope.message_id
            != t.log[j].envelope.message_id by {
            if j == s.log.len() {
                assert(s.log[i].envelope.message_id != e.message_id);
            }
        }
        assert(-9223372036854775808 <= spec_day_bucket(e.received_at) <= 9223372036854775807);
        assert forall|i: int|
            0 <= i < t.participants.len() && !(#[trigger] t.participants[i]).banned implies
            t.participants[i].inbox.unread_count
            == unread_after(
            t.log,
            t.participants[i].user_id,
            t.participants[i].inbox.last_seen_message_id,
        ) by {
            let p = s.participants[i];
            assert(!p.banned);
            lemma_unread_bounded(s.log, p.user_id, p.inbox.last_seen_message_id);
            assert(s.seen_is_logged(p.inbox.last_seen_message_id));
        }
        assert forall|i: int|
            0 <= i < t.participants.len() && !(#[trigger] t.participants[i]).banned implies
            t.seen_is_logged(
            t.participants[i].inbox.last_seen_message_id,
        ) by {
            let p = s.participants[i];
            assert(!p.banned);
            assert(s.seen_is_logged(p.inbox.last_seen_message_id));
            assert(t.log[s.log.len() as int].envelope.message_id == e.message_id);
            if p.user_id != e.sender_id {
                if let Some(id) = p.inbox.last_seen_message_id {
                    let k = s.index_of(id);
                    assert(t.log[k] == s.log[k]);
                }
            }
        }
        assert forall|i: int| 0 <= i < t.deliveries.len() implies t.logged(
            (#[trigger] t.deliveries[i]).message_id,
        ) by {
            if i < s.deliveries.len() {
                let k = s.index_of(s.deliveries[i].message_id);
                assert(t.log[k] == s.log[k]);
            } else {
                assert(t.log[s.log.len() as int].envelope.message_id == e.message_id);
            }
        }
        assert forall|i: int, j: int| 0 <= i < j < t.deliveries.len() implies !same_delivery(
            t.deliveries[i],
            t.deliveries[j],
        ) by {
            let n = s.deliveries.len() as int;
            if j < n {
                assert(!same_delivery(s.deliveries[i], s.deliveries[j]));
            } else if i < n {
                assert(s.logged(s.deliveries[i].message_id));
                assert(t.deliveries[j].message_id == e.message_id);
            } else {
                lemma_active_origin(s.participants, i - n, j - n);
                let a = active_origin(s.participants, i - n);
                let b = active_origin(s.participants, j - n);
                assert(s.participants[a].user_id != s.participants[b].user_id);
            }
        }
    }
}

} // verus!
