//! The message processor: it takes envelopes from `messages`, persists them
//! in the log of their conversation, keeps inboxes and delivery records up
//! to date and says what is to be published on `processed-messages`.

use vstd::prelude::*;
use crate::bus::{route_processed, route_read_receipt, Route};
use crate::conversation::{
    active_ids, ConversationState, ConversationView, Outcome, OutcomeView,
};
use crate::envelope::{EnvelopeView, MessageEnvelope, ProcessedMessage, ReadReceiptUpdate};
use crate::models::GroupRole;

verus! {

/// The conversations of a processor as mathematical values.
pub struct ProcessorView {
    pub conversations: Seq<ConversationView>,
}

impl ProcessorView {
    /// Whether the processor holds a conversation with this id.
    pub open spec fn has(self, id: u128) -> bool {
        exists|i: int| 0 <= i < self.conversations.len() && self.conversations[i].id == id
    }

    /// The place of a conversation that the processor holds.
    pub open spec fn index_of(self, id: u128) -> int {
        choose|i: int| 0 <= i < self.conversations.len() && self.conversations[i].id == id
    }

    /// The conversation with this id.
    pub open spec fn get(self, id: u128) -> ConversationView {
        self.conversations[self.index_of(id)]
    }

    /// The processor's invariant: every conversation is valid, and no two
    /// have the same id.
    pub open spec fn valid(self) -> bool {
        &&& forall|i: int|
            0 <= i < self.conversations.len() ==> (#[trigger] self.conversations[i]).valid()
        &&& forall|i: int, j: int|
            0 <= i < j < self.conversations.len() ==> self.conversations[i].id
                != self.conversations[j].id
    }

    /// The processor with conversation `id` replaced by `c`.
    pub open spec fn with(self, id: u128, c: ConversationView) -> ProcessorView {
        ProcessorView { conversations: self.conversations.update(self.index_of(id), c) }
    }

    /// The processor after it has handled envelope `e` at `now`. An envelope
    /// for a conversation that the processor does not hold changes nothing.
    pub open spec fn after(self, e: EnvelopeView, now: i64) -> ProcessorView {
        if self.has(e.conversation_id) {
            self.with(e.conversation_id, self.get(e.conversation_id).after(e, now))
        } else {
            self
        }
    }

    /// What the processor answers for envelope `e`.
    pub open spec fn outcome(self, e: EnvelopeView) -> OutcomeView {
        if self.has(e.conversation_id) {
            self.get(e.conversation_id).outcome(e)
        } else {
            OutcomeView::Dropped
        }
    }

    /// The processor after it has handled `es` one after the other.
    pub open spec fn after_all(self, es: Seq<EnvelopeView>, now: i64) -> ProcessorView
        decreases es.len(),
    {
        if es.len() == 0 {
            self
        } else {
            self.after_all(es.drop_last(), now).after(es.last(), now)
        }
    }
}

/// The views of a batch of envelopes.
pub open spec fn envelope_views(batch: Seq<MessageEnvelope>) -> Seq<EnvelopeView> {
    Seq::new(batch.len(), |i: int| batch[i]@)
}

/// Where ids are distinct, the place of a conversation is the one at which
/// its id is found.
pub proof fn lemma_conversation_index(s: ProcessorView, id: u128, i: int)
    requires
        s.valid(),
        0 <= i < s.conversations.len(),
        s.conversations[i].id == id,
    ensures
        s.has(id),
        s.index_of(id) == i,
{
    let k = s.index_of(id);
    assert(0 <= k < s.conversations.len() && s.conversations[k].id == id);
    if k < i {
        assert(s.conversations[k].id != s.conversations[i].id);
    } else if i < k {
        assert(s.conversations[i].id != s.conversations[k].id);
    }
}

/// Replacing a conversation by a valid one of the same id keeps the
/// processor's invariant.
pub proof fn lemma_with_valid(s: ProcessorView, id: u128, c: ConversationView)
    requires
        s.valid(),
        s.has(id),
        c.valid(),
        c.id == id,
    ensures
        s.with(id, c).valid(),
{
    let k = s.index_of(id);
    let t = s.with(id, c);
    assert forall|i: int, j: int| 0 <= i < j < t.conversations.len() implies t.conversations[i].id
        != t.conversations[j].id by {
        assert(s.conversations[i].id != s.conversations[j].id);
    }
}

/// The message processor.
#[derive(Debug)]
pub struct MessageProcessor {
    conversations: Vec<ConversationState>,
}

impl View for MessageProcessor {
    type V = ProcessorView;

    closed spec fn view(&self) -> ProcessorView {
        ProcessorView {
            conversations: Seq::new(
                self.conversations@.len(),
                |i: int| self.conversations@[i]@,
            ),
        }
    }
}

impl MessageProcessor {
    /// Whether the processor's invariant holds.
    pub open spec fn wf(&self) -> bool {
        self@.valid()
    }

    /// A processor without conversations.
    pub fn new() -> (p: MessageProcessor)
        ensures
            p.wf(),
            p@.conversations.len() == 0,
    {
        MessageProcessor { conversations: Vec::new() }
    }

    /// The place of the conversation with this id.
    fn find(&self, id: u128) -> (found: Option<usize>)
        requires
            self.wf(),
        ensures
            match found {
                Some(i) => i < self.conversations@.len() && self@.has(id) && self@.index_of(id)
                    == i,
                None => !self@.has(id),
            },
    {
        let mut i: usize = 0;
        while i < self.conversations.len()
            invariant
                self.wf(),
                i <= self.conversations.len(),
                forall|j: int| 0 <= j < i ==> self@.conversations[j].id != id,
            decreases self.conversations.len() - i,
        {
            if self.conversations[i].id() == id {
                proof {
                    lemma_conversation_index(self@, id, i as int);
                }
                return Some(i);
            }
            i = i + 1;
        }
        None
    }

    /// Whether the processor holds a conversation with this id.
    pub fn has_conversation(&self, id: u128) -> (found: bool)
        requires
            self.wf(),
        ensures
            found == self@.has(id),
    {
        self.find(id).is_some()
    }

    /// The conversation with this id.
    pub fn conversation(&self, id: u128) -> (found: Option<&ConversationState>)
        requires
            self.wf(),
        ensures
            match found {
                Some(c) => self@.has(id) && c@ == self@.get(id) && c.wf(),
                None => !self@.has(id),
            },
    {
        match self.find(id) {
            Some(i) => Some(&self.conversations[i]),
            None => None,
        }
    }

    /// Starts a conversation without participants or messages. Returns
    /// whether it was started; a conversation that exists stays as it is.
    pub fn open_conversation(&mut self, id: u128) -> (opened: bool)
        requires
            old(self).wf(),
        ensures
            final(self).wf(),
            opened == !old(self)@.has(id),
            final(self)@.conversations == if opened {
                old(self)@.conversations.push(ConversationView::empty(id))
            } else {
                old(self)@.conversations
            },
    {
        if self.find(id).is_some() {
            return false;
        }
        self.conversations.push(ConversationState::new(id));
        proof {
            let s = old(self)@;
            assert(self@.conversations =~= s.conversations.push(ConversationView::empty(id)));
            assert forall|i: int, j: int|
                0 <= i < j < self@.conversations.len() implies self@.conversations[i].id
                != self@.conversations[j].id by {
                if j < s.conversations.len() {
                    assert(s.conversations[i].id != s.conversations[j].id);
                }
            }
        }
        true
    }

    /// Lets `user` join conversation `id` with `role`. Returns whether the
    /// user was added.
    pub fn add_member(&mut self, id: u128, user: u128, role: GroupRole) -> (added: bool)
        requires
            old(self).wf(),
        ensures
            final(self).wf(),
            added == (old(self)@.has(id) && !old(self)@.get(id).has_participant(user)),
            final(self)@ == if old(self)@.has(id) {
                old(self)@.with(id, old(self)@.get(id).with_member(user, role))
            } else {
                old(self)@
            },
    {
        match self.find(id) {
            Some(i) => {
                let added = self.conversations[i].add_member(user, role);
                proof {
                    let s = old(self)@;
                    let t = s.with(id, s.get(id).with_member(user, role));
                    assert(self@.conversations =~= t.conversations);
                    lemma_with_valid(s, id, s.get(id).with_member(user, role));
                }
                added
            },
            None => false,
        }
    }

    /// Takes `user` out of conversation `id`. Returns whether there was
    /// anybody to take out.
    pub fn remove_member(&mut self, id: u128, user: u128) -> (removed: bool)
        requires
            old(self).wf(),
        ensures
            final(self).wf(),
            removed == (old(self)@.has(id) && old(self)@.get(id).has_participant(user)),
            final(self)@ == if old(self)@.has(id) {
                old(self)@.with(id, old(self)@.get(id).without_member(user))
            } else {
                old(self)@
            },
    {
        match self.find(id) {
            Some(i) => {
                let removed = self.conversations[i].remove_member(user);
                proof {
                    let s = old(self)@;
                    let t = s.with(id, s.get(id).without_member(user));
                    assert(self@.conversations =~= t.conversations);
                    lemma_with_valid(s, id, s.get(id).without_member(user));
                }
                removed
            },
            None => false,
        }
    }

    /// Sets or lifts the ban on `user` in conversation `id`. Returns whether
    /// the user has a place in the conversation.
    pub fn set_banned(&mut self, id: u128, user: u128, banned: bool) -> (found: bool)
        requires
            old(self).wf(),
        ensures
            final(self).wf(),
            found == (old(self)@.has(id) && old(self)@.get(id).has_participant(user)),
            final(self)@ == if old(self)@.has(id) {
                old(self)@.with(id, old(self)@.get(id).with_ban(user, banned))
            } else {
                old(self)@
            },
    {
        match self.find(id) {
            Some(i) => {
                let found = self.conversations[i].set_banned(user, banned);
                proof {
                    let s = old(self)@;
                    let t = s.with(id, s.get(id).with_ban(user, banned));
                    assert(self@.conversations =~= t.conversations);
                    lemma_with_valid(s, id, s.get(id).with_ban(user, banned));
                }
                found
            },
            None => false,
        }
    }

    /// Whether `user` is a member in good standing of conversation `id`.
    pub fn is_member(&self, id: u128, user: u128) -> (member: bool)
        requires
            self.wf(),
        ensures
            member == (self@.has(id) && self@.get(id).is_member(user)),
    {
        match self.find(id) {
            Some(i) => self.conversations[i].is_member(user),
            None => false,
        }
    }

    /// The members in good standing of conversation `id`: those to whom its
    /// messages are delivered. A conversation that is not held has none.
    pub fn get_conversation_participants(&self, id: u128) -> (ids: Vec<u128>)
        requires
            self.wf(),
        ensures
            ids@ == if self@.has(id) {
                active_ids(self@.get(id).participants)
            } else {
                Seq::empty()
            },
    {
        match self.find(id) {
            Some(i) => self.conversations[i].list_members(),
            None => Vec::new(),
        }
    }

    /// Handles one envelope from `messages`.
    pub fn process_message(&mut self, envelope: &MessageEnvelope, now: i64) -> (out: Outcome)
        requires
            old(self).wf(),
        ensures
            final(self).wf(),
            final(self)@ == old(self)@.after(envelope@, now),
            out@ == old(self)@.outcome(envelope@),
    {
        match self.find(envelope.conversation_id) {
            Some(i) => {
                let out = self.conversations[i].process(envelope, now);
                proof {
                    let s = old(self)@;
                    let c = s.get(envelope.conversation_id).after(envelope@, now);
                    assert(self@.conversations =~= s.after(envelope@, now).conversations);
                    lemma_with_valid(s, envelope.conversation_id, c);
                }
                out
            },
            None => Outcome::Dropped,
        }
    }

    /// Handles a batch of envelopes in the order in which they arrived.
    pub fn process_messages(&mut self, batch: &Vec<MessageEnvelope>, now: i64) -> (outs: Vec<
        Outcome,
    >)
        requires
            old(self).wf(),
        ensures
            final(self).wf(),
            final(self)@ == old(self)@.after_all(envelope_views(batch@), now),
            outs@.len() == batch@.len(),
            forall|i: int|
                0 <= i < batch@.len() ==> (#[trigger] outs@[i])@ == old(self)@.after_all(
                    envelope_views(batch@).take(i),
                    now,
                ).outcome(batch@[i]@),
    {
        let mut outs: Vec<Outcome> = Vec::new();
        let mut i: usize = 0;
        let ghost views = envelope_views(batch@);
        proof {
            assert(views.take(0) =~= Seq::empty());
        }
        while i < batch.len()
            invariant
                i <= batch.len(),
                views == envelope_views(batch@),
                self.wf(),
                self@ == old(self)@.after_all(views.take(i as int), now),
                outs@.len() == i,
                forall|j: int|
                    0 <= j < i ==> (#[trigger] outs@[j])@ == old(self)@.after_all(
                        views.take(j),
                        now,
                    ).outcome(batch@[j]@),
            decreases batch.len() - i,
        {
            let out = self.process_message(&batch[i], now);
            outs.push(out);
            proof {
                assert(views.take(i as int + 1).drop_last() =~= views.take(i as int));
                assert(views.take(i as int + 1).last() == batch@[i as int]@);
            }
            i = i + 1;
        }
        proof {
            assert(views.take(batch@.len() as int) =~= views);
        }
        outs
    }

    /// Says where the record of a persisted envelope is to be published:
    /// on `processed-messages`, under its conversation.
    pub fn publish_processed_message(message: &ProcessedMessage) -> (route: Route)
        ensures
            route == (Route {
                topic: crate::bus::Topic::ProcessedMessages,
                key: message.conversation_id,
            }),
    {
        route_processed(message)
    }

    /// Records that `user` has read `message_id` of conversation `id` at
    /// `at`. Returns the notice for the author's gateway and where it is to
    /// be published: on `read-receipts`, under the reader.
    pub fn handle_read_receipt(&mut self, id: u128, user: u128, message_id: u128, at: i64) -> (out:
        (ReadReceiptUpdate, Route))
        requires
            old(self).wf(),
        ensures
            final(self).wf(),
            final(self)@ == if old(self)@.has(id) {
                old(self)@.with(id, old(self)@.get(id).with_read(message_id, user, at))
            } else {
                old(self)@
            },
            out.0 == (ReadReceiptUpdate { user_id: user, message_id, read_at: at }),
            out.1 == (Route { topic: crate::bus::Topic::ReadReceipts, key: user }),
    {
        let notice = match self.find(id) {
            Some(i) => {
                let notice = self.conversations[i].handle_read_receipt(user, message_id, at);
                proof {
                    let s = old(self)@;
                    let c = s.get(id).with_read(message_id, user, at);
                    assert(self@.conversations =~= s.with(id, c).conversations);
                    lemma_with_valid(s, id, c);
                }
                notice
            },
            None => ReadReceiptUpdate { user_id: user, message_id, read_at: at },
        };
        let route = route_read_receipt(&notice);
        (notice, route)
    }
}

} // verus!
