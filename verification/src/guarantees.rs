//! What the message processor guarantees of a conversation, proved of the
//! model that its operations are verified against.

use vstd::prelude::*;
use crate::conversation::{unread_after, ConversationView, LogEntryView};
use crate::envelope::{processed_record, spec_day_bucket, EnvelopeView, ProcessedView};

verus! {

/// Whether the record of a persisted envelope is among the published ones.
pub open spec fn is_published(published: Seq<ProcessedView>, e: EnvelopeView) -> bool {
    exists|k: int| 0 <= k < published.len() && published[k] == processed_record(e)
}

/// Whether a published record is the record of some log entry.
pub open spec fn is_backed(log: Seq<LogEntryView>, r: ProcessedView) -> bool {
    exists|i: int| 0 <= i < log.len() && r == processed_record(log[i].envelope)
}

/// Whether the log and the `processed-messages` topic agree: the record of
/// every log entry has been published, and every published record is the
/// record of a log entry.
pub open spec fn log_matches_published(s: ConversationView, published: Seq<ProcessedView>) -> bool {
    &&& forall|i: int|
        0 <= i < s.log.len() ==> is_published(published, (#[trigger] s.log[i]).envelope)
    &&& forall|k: int| 0 <= k < published.len() ==> is_backed(s.log, #[trigger] published[k])
}

/// A new conversation and an empty topic agree.
pub proof fn lemma_empty_matches(id: u128)
    ensures
        ConversationView::empty(id).valid(),
        log_matches_published(ConversationView::empty(id), Seq::empty()),
{
}

/// Persistence and publication go together. Handling an envelope keeps the
/// log and the topic in agreement: an admitted envelope ends up with an
/// entry under its conversation, its day bucket and its message id and with
/// a published record of that entry; an envelope that is not admitted adds
/// neither an entry nor a record.
pub proof fn lemma_persisted_iff_published(
    s: ConversationView,
    published: Seq<ProcessedView>,
    e: EnvelopeView,
    now: i64,
)
    requires
        s.valid(),
        s.log.len() < u64::MAX,
        log_matches_published(s, published),
    ensures
        log_matches_published(s.after(e, now), published + s.emission(e)),
        s.admits(e) ==> {
            let t = s.after(e, now);
            let i = t.index_of(e.message_id);
            &&& t.logged(e.message_id)
            &&& t.log[i].envelope.conversation_id == e.conversation_id
            &&& t.log[i].bucket == spec_day_bucket(t.log[i].envelope.received_at)
            &&& s.emission(e) == seq![processed_record(t.log[i].envelope)]
        },
        s.accepts(e) ==> s.after(e, now).log.last().envelope == e,
        !s.admits(e) ==> s.after(e, now) == s && s.emission(e).len() == 0,
{
    let t = s.after(e, now);
    let out = published + s.emission(e);
    crate::conversation::lemma_after_valid(s, e, now);
    if s.admits(e) {
        if s.logged(e.message_id) {
            let i = s.index_of(e.message_id);
            assert(t == s);
            assert(s.emission(e) == seq![processed_record(s.log[i].envelope)]);
        } else {
            let n = s.log.len() as int;
            assert(t.log[n].envelope == e);
            assert(t.logged(e.message_id));
            let i = t.index_of(e.message_id);
            assert(i == n) by {
                if i < n {
                    assert(t.log[i] == s.log[i]);
                }
            }
            assert(spec_day_bucket(e.received_at) as i64 == spec_day_bucket(e.received_at));
        }
        let r = s.emission(e)[0];
        assert(out[published.len() as int] == r);
        assert forall|i: int| 0 <= i < t.log.len() implies is_published(
            out,
            (#[trigger] t.log[i]).envelope,
        ) by {
            if i < s.log.len() {
                assert(t.log[i] == s.log[i]);
                assert(is_published(published, s.log[i].envelope));
                let k = choose|k: int|
                    0 <= k < published.len() && published[k] == processed_record(
                        s.log[i].envelope,
                    );
                assert(out[k] == published[k]);
            } else {
                assert(out[published.len() as int] == processed_record(t.log[i].envelope));
            }
        }
        assert forall|k: int| 0 <= k < out.len() implies is_backed(t.log, #[trigger] out[k]) by {
            if k < published.len() {
                assert(out[k] == published[k]);
                assert(is_backed(s.log, published[k]));
                let i = choose|i: int|
                    0 <= i < s.log.len() && published[k] == processed_record(s.log[i].envelope);
                assert(t.log[i] == s.log[i]);
            } else {
                let i = t.index_of(e.message_id);
                assert(out[k] == processed_record(t.log[i].envelope));
            }
        }
    } else {
        assert(out =~= published);
    }
}

/// The envelopes of a log, in its order.
pub open spec fn envelopes_of(log: Seq<LogEntryView>) -> Seq<EnvelopeView> {
    Seq::new(log.len(), |i: int| log[i].envelope)
}

/// The envelopes of `es` that `sender` wrote, in the order of `es`.
pub open spec fn by_sender(es: Seq<EnvelopeView>, sender: u128) -> Seq<EnvelopeView>
    decreases es.len(),
{
    if es.len() == 0 {
        Seq::empty()
    } else if es.last().sender_id == sender {
        by_sender(es.drop_last(), sender).push(es.last())
    } else {
        by_sender(es.drop_last(), sender)
    }
}

/// Whether `a` can be had from `b` by leaving elements out, the order of
/// the others unchanged.
pub open spec fn is_subsequence(a: Seq<EnvelopeView>, b: Seq<EnvelopeView>) -> bool
    decreases b.len(),
{
    if a.len() == 0 {
        true
    } else if b.len() == 0 {
        false
    } else if a.last() == b.last() {
        is_subsequence(a.drop_last(), b.drop_last()) || is_subsequence(a, b.drop_last())
    } else {
        is_subsequence(a, b.drop_last())
    }
}

/// The conversation after the processor has handled the envelopes `es` one
/// after the other, all at `now`.
pub open spec fn after_all(s: ConversationView, es: Seq<EnvelopeView>, now: i64) -> ConversationView
    decreases es.len(),
{
    if es.len() == 0 {
        s
    } else {
        after_all(s, es.drop_last(), now).after(es.last(), now)
    }
}

/// Handling envelopes keeps the conversation's invariant and only ever
/// appends to the log.
pub proof fn lemma_after_all_extends(s: ConversationView, es: Seq<EnvelopeView>, now: i64)
    requires
        s.valid(),
        s.log.len() + es.len() < u64::MAX,
    ensures
        after_all(s, es, now).valid(),
        s.log.len() <= after_all(s, es, now).log.len() <= s.log.len() + es.len(),
        after_all(s, es, now).log.take(s.log.len() as int) == s.log,
        after_all(s, es, now).participants.len() == s.participants.len(),
        after_all(s, es, now).id == s.id,
    decreases es.len(),
{
    if es.len() == 0 {
        assert(s.log.take(s.log.len() as int) =~= s.log);
    } else {
        let m = after_all(s, es.drop_last(), now);
        lemma_after_all_extends(s, es.drop_last(), now);
        crate::conversation::lemma_after_valid(m, es.last(), now);
        let t = m.after(es.last(), now);
        assert(t.log.take(s.log.len() as int) =~= m.log.take(s.log.len() as int));
    }
}

/// The log keeps the order of arrival. Of any one author, the entries that
/// handling `es` adds to the log are a subsequence of that author's envelopes in
/// `es`, and what was in the log before stays in front of them.
pub proof fn lemma_log_follows_arrival(
    s: ConversationView,
    es: Seq<EnvelopeView>,
    now: i64,
    sender: u128,
)
    requires
        s.valid(),
        s.log.len() + es.len() < u64::MAX,
    ensures
        after_all(s, es, now).log.take(s.log.len() as int) == s.log,
        is_subsequence(
            by_sender(envelopes_of(after_all(s, es, now).log.skip(s.log.len() as int)), sender),
            by_sender(es, sender),
        ),
    decreases es.len(),
{
    lemma_after_all_extends(s, es, now);
    let n = s.log.len() as int;
    if es.len() == 0 {
        assert(envelopes_of(s.log.skip(n)) =~= Seq::empty());
    } else {
        let e = es.last();
        let m = after_all(s, es.drop_last(), now);
        lemma_after_all_extends(s, es.drop_last(), now);
        lemma_log_follows_arrival(s, es.drop_last(), now, sender);
        let t = m.after(e, now);
        let a0 = by_sender(envelopes_of(m.log.skip(n)), sender);
        let b0 = by_sender(es.drop_last(), sender);
        if m.accepts(e) {
            let added = envelopes_of(t.log.skip(n));
            assert(added.drop_last() =~= envelopes_of(m.log.skip(n)));
            assert(added.last() == e);
            if e.sender_id == sender {
                assert(a0.push(e).drop_last() =~= a0);
                assert(b0.push(e).drop_last() =~= b0);
            }
        } else {
            if e.sender_id == sender {
                lemma_subsequence_grows(a0, b0, e);
            }
        }
    }
}

/// What is a subsequence of `b` is one of `b` with one more element.
pub proof fn lemma_subsequence_grows(a: Seq<EnvelopeView>, b: Seq<EnvelopeView>, x: EnvelopeView)
    requires
        is_subsequence(a, b),
    ensures
        is_subsequence(a, b.push(x)),
{
    assert(b.push(x).drop_last() =~= b);
}

/// Replay is absorbed. Handling an envelope a second time, whenever that
/// happens, changes neither the log nor any inbox nor anything else.
pub proof fn lemma_replay_is_absorbed(s: ConversationView, e: EnvelopeView, now: i64, later: i64)
    requires
        s.valid(),
    ensures
        s.after(e, now).after(e, later) == s.after(e, now),
        s.admits(e) ==> s.after(e, now).outcome(e) is Replayed,
{
    let t = s.after(e, now);
    if s.accepts(e) {
        assert(t.log[s.log.len() as int].envelope.message_id == e.message_id);
        assert(t.logged(e.message_id));
        let i = choose|i: int|
            0 <= i < s.participants.len() && s.participants[i].user_id == e.sender_id
                && !s.participants[i].banned;
        assert(t.participants[i].user_id == e.sender_id && !t.participants[i].banned);
    }
}

/// The instant of the message that a user has seen last, if it is in the
/// log.
pub open spec fn seen_at(log: Seq<LogEntryView>, last_seen: Option<u128>) -> Option<i64>
    decreases log.len(),
{
    if log.len() == 0 {
        None
    } else if last_seen == Some(log.last().envelope.message_id) {
        Some(log.last().envelope.received_at)
    } else {
        seen_at(log.drop_last(), last_seen)
    }
}

/// Number of messages in `log` of authors other than `user` that were
/// received after `since` (all of them, where `since` is nothing).
pub open spec fn unread_since(log: Seq<LogEntryView>, user: u128, since: Option<i64>) -> nat
    decreases log.len(),
{
    if log.len() == 0 {
        0
    } else {
        let counts = log.last().envelope.sender_id != user && match since {
            Some(t) => log.last().envelope.received_at > t,
            None => true,
        };
        unread_since(log.drop_last(), user, since) + if counts {
            1nat
        } else {
            0nat
        }
    }
}

/// Whether every message of the log was received later than the one before.
pub open spec fn strictly_timed(log: Seq<LogEntryView>) -> bool {
    forall|i: int, j: int|
        0 <= i < j < log.len() ==> log[i].envelope.received_at < log[j].envelope.received_at
}

/// Nothing in a strictly timed log is newer than its newest message.
proof fn lemma_nothing_newer(log: Seq<LogEntryView>, user: u128, t: i64)
    requires
        forall|i: int| 0 <= i < log.len() ==> log[i].envelope.received_at <= t,
    ensures
        unread_since(log, user, Some(t)) == 0,
    decreases log.len(),
{
    if log.len() > 0 {
        lemma_nothing_newer(log.drop_last(), user, t);
    }
}

/// What a user has seen is no newer than the newest message.
proof fn lemma_seen_at_bounded(log: Seq<LogEntryView>, last_seen: Option<u128>)
    requires
        strictly_timed(log),
    ensures
        match seen_at(log, last_seen) {
            Some(t) => log.len() > 0 && t <= log.last().envelope.received_at,
            None => true,
        },
    decreases log.len(),
{
    if log.len() > 0 && last_seen != Some(log.last().envelope.message_id) {
        lemma_seen_at_bounded(log.drop_last(), last_seen);
    }
}

/// Counting by place and counting by time agree where every message was
/// received later than the one before: the messages after the one seen last
/// are those received after it.
pub proof fn lemma_unread_by_time(log: Seq<LogEntryView>, user: u128, last_seen: Option<u128>)
    requires
        strictly_timed(log),
    ensures
        unread_after(log, user, last_seen) == unread_since(log, user, seen_at(log, last_seen)),
    decreases log.len(),
{
    if log.len() > 0 {
        let rest = log.drop_last();
        if last_seen == Some(log.last().envelope.message_id) {
            lemma_nothing_newer(log, user, log.last().envelope.received_at);
        } else {
            lemma_unread_by_time(rest, user, last_seen);
            lemma_seen_at_bounded(rest, last_seen);
        }
    }
}

/// Unread counts are consistent with the log. For every member in good
/// standing, and as long as every message was received later than the one
/// before, the unread count is the number of messages of other authors that
/// were received after the message that the member has seen last.
pub proof fn lemma_unread_count_consistent(s: ConversationView, i: int)
    requires
        s.valid(),
        strictly_timed(s.log),
        0 <= i < s.participants.len(),
        !s.participants[i].banned,
    ensures
        s.participants[i].inbox.unread_count == unread_since(
            s.log,
            s.participants[i].user_id,
            seen_at(s.log, s.participants[i].inbox.last_seen_message_id),
        ),
{
    lemma_unread_by_time(
        s.log,
        s.participants[i].user_id,
        s.participants[i].inbox.last_seen_message_id,
    );
}

} // verus!
