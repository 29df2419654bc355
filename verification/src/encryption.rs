//! The encryption service: it keeps the ratchet state that clients park
//! with the server. Every key that reaches it has been encrypted by the
//! client; the service stores bytes and never looks inside.

use vstd::prelude::*;
use crate::envelope::copy_bytes;
use crate::errors::ErrorKind;
use crate::ids::{parse_id, uuid_parsed};
use crate::models::EncryptionSession;

verus! {

/// What a client sends to park a session.
#[derive(Debug)]
pub struct StoreSessionRequest {
    pub session_id: String,
    pub user_id: String,
    pub peer_id: String,
    pub root_key: Vec<u8>,
    pub sending_chain_key: Vec<u8>,
    pub receiving_chain_key: Vec<u8>,
    pub sending_ratchet_key: Vec<u8>,
    pub receiving_ratchet_key: Vec<u8>,
    pub prev_sending_chain_length: u32,
    pub prev_receiving_chain_length: u32,
    pub message_number: u32,
}

/// A parked session as mathematical values.
pub struct ParkedView {
    pub session_id: u128,
    pub user_id: u128,
    pub peer_id: u128,
    pub root_key: Seq<u8>,
    pub sending_chain_key: Seq<u8>,
    pub receiving_chain_key: Seq<u8>,
    pub sending_ratchet_key: Seq<u8>,
    pub receiving_ratchet_key: Seq<u8>,
    pub prev_sending_chain_length: u32,
    pub prev_receiving_chain_length: u32,
    pub message_number: u32,
    pub created_at: i64,
    pub updated_at: i64,
}

/// What a parked session holds.
pub open spec fn parked(s: EncryptionSession) -> ParkedView {
    ParkedView {
        session_id: s.session_id,
        user_id: s.user_id,
        peer_id: s.peer_id,
        root_key: s.root_key@,
        sending_chain_key: s.sending_chain_key@,
        receiving_chain_key: s.receiving_chain_key@,
        sending_ratchet_key: s.sending_ratchet_key@,
        receiving_ratchet_key: s.receiving_ratchet_key@,
        prev_sending_chain_length: s.prev_sending_chain_length,
        prev_receiving_chain_length: s.prev_receiving_chain_length,
        message_number: s.message_number,
        created_at: s.created_at,
        updated_at: s.updated_at,
    }
}

/// The three ids of a request, read in the order session, user, peer; the
/// first that is no identifier decides.
pub open spec fn request_ids(session: Option<u128>, user: Option<u128>, peer: Option<u128>)
    -> Result<(u128, u128, u128), ErrorKind> {
    match (session, user, peer) {
        (Some(s), Some(u), Some(p)) => Ok((s, u, p)),
        _ => Err(ErrorKind::Validation),
    }
}

/// Checks the three ids of a request.
pub fn check_request_ids(session: Option<u128>, user: Option<u128>, peer: Option<u128>) -> (result:
    Result<(u128, u128, u128), ErrorKind>)
    ensures
        result == request_ids(session, user, peer),
{
    match (session, user, peer) {
        (Some(s), Some(u), Some(p)) => Ok((s, u, p)),
        _ => Err(ErrorKind::Validation),
    }
}

/// The place of the session that is parked under these three ids; the
/// number of sessions where there is none.
pub open spec fn parked_index(
    sessions: Seq<EncryptionSession>,
    user: u128,
    peer: u128,
    session: u128,
) -> int
    decreases sessions.len(),
{
    if sessions.len() == 0 {
        0
    } else if sessions[0].user_id == user && sessions[0].peer_id == peer && sessions[0].session_id
        == session {
        0
    } else {
        1 + parked_index(sessions.skip(1), user, peer, session)
    }
}

/// The place of the session of `user` with `peer` that was updated last,
/// the first of several; nothing where there is none.
pub open spec fn latest_index(sessions: Seq<EncryptionSession>, user: u128, peer: u128) -> Option<
    int,
>
    decreases sessions.len(),
{
    if sessions.len() == 0 {
        None
    } else {
        let before = latest_index(sessions.drop_last(), user, peer);
        let s = sessions.last();
        if s.user_id != user || s.peer_id != peer {
            before
        } else {
            match before {
                None => Some(sessions.len() - 1),
                Some(k) => if s.updated_at > sessions[k].updated_at {
                    Some(sessions.len() - 1)
                } else {
                    Some(k)
                },
            }
        }
    }
}

/// The sessions but those with this session id, in their order.
pub open spec fn without_session(sessions: Seq<EncryptionSession>, session: u128) -> Seq<
    EncryptionSession,
>
    decreases sessions.len(),
{
    if sessions.len() == 0 {
        Seq::empty()
    } else if sessions.last().session_id == session {
        without_session(sessions.drop_last(), session)
    } else {
        without_session(sessions.drop_last(), session).push(sessions.last())
    }
}

/// Whether `after` is `before` with the session of `request` parked at
/// `now` under the ids `ids` (session, user, peer). A session that was
/// parked under the same three ids keeps its place, its counters and the
/// instant of its creation, and gets the new keys; otherwise the session
/// joins the others at the end.
pub open spec fn is_stored(
    before: Seq<EncryptionSession>,
    after: Seq<EncryptionSession>,
    ids: (u128, u128, u128),
    request: StoreSessionRequest,
    now: i64,
) -> bool {
    let k = parked_index(before, ids.1, ids.2, ids.0);
    if k < before.len() {
        &&& after.len() == before.len()
        &&& forall|i: int| 0 <= i < before.len() && i != k ==> after[i] == before[i]
        &&& parked(after[k]) == ParkedView {
            root_key: request.root_key@,
            sending_chain_key: request.sending_chain_key@,
            receiving_chain_key: request.receiving_chain_key@,
            sending_ratchet_key: request.sending_ratchet_key@,
            receiving_ratchet_key: request.receiving_ratchet_key@,
            updated_at: now,
            ..parked(before[k])
        }
    } else {
        &&& after.len() == before.len() + 1
        &&& forall|i: int| 0 <= i < before.len() ==> after[i] == before[i]
        &&& parked(after.last()) == ParkedView {
            session_id: ids.0,
            user_id: ids.1,
            peer_id: ids.2,
            root_key: request.root_key@,
            sending_chain_key: request.sending_chain_key@,
            receiving_chain_key: request.receiving_chain_key@,
            sending_ratchet_key: request.sending_ratchet_key@,
            receiving_ratchet_key: request.receiving_ratchet_key@,
            prev_sending_chain_length: request.prev_sending_chain_length,
            prev_receiving_chain_length: request.prev_receiving_chain_length,
            message_number: request.message_number,
            created_at: now,
            updated_at: now,
        }
    }
}

/// The parked sessions.
#[derive(Debug)]
pub struct EncryptionService {
    sessions: Vec<EncryptionSession>,
}

impl EncryptionService {
    /// The sessions that are parked.
    pub closed spec fn sessions(&self) -> Seq<EncryptionSession> {
        self.sessions@
    }

    /// A service without sessions.
    pub fn new() -> (service: EncryptionService)
        ensures
            service.sessions().len() == 0,
    {
        EncryptionService { sessions: Vec::new() }
    }

    /// Number of parked sessions.
    pub fn len(&self) -> (n: usize)
        ensures
            n == self.sessions().len(),
    {
        self.sessions.len()
    }

    fn find(&self, user: u128, peer: u128, session: u128) -> (k: usize)
        ensures
            k == parked_index(self.sessions(), user, peer, session),
            k <= self.sessions().len(),
    {
        let mut i: usize = 0;
        proof {
            assert(self.sessions@.skip(0) =~= self.sessions@);
        }
        while i < self.sessions.len()
            invariant
                i <= self.sessions.len(),
                parked_index(self.sessions@, user, peer, session) == i + parked_index(
                    self.sessions@.skip(i as int),
                    user,
                    peer,
                    session,
                ),
            decreases self.sessions.len() - i,
        {
            assert(self.sessions@.skip(i as int)[0] == self.sessions@[i as int]);
            if self.sessions[i].user_id == user && self.sessions[i].peer_id == peer
                && self.sessions[i].session_id == session {
                return i;
            }
            proof {
                assert(self.sessions@.skip(i as int).skip(1) =~= self.sessions@.skip(
                    i as int + 1,
                ));
            }
            i = i + 1;
        }
        i
    }

    /// Parks a session whose ids have been read. A session that is parked
    /// under the same three ids keeps its counters and the instant of its
    /// creation; its keys are replaced.
    pub fn store(
        &mut self,
        ids: (u128, u128, u128),
        request: StoreSessionRequest,
        now: i64,
    )
        ensures
            is_stored(old(self).sessions(), final(self).sessions(), ids, request, now),
    {
        let (session_id, user_id, peer_id) = ids;
        let k = self.find(user_id, peer_id, session_id);
        if k < self.sessions.len() {
            self.sessions[k].root_key = request.root_key;
            self.sessions[k].sending_chain_key = request.sending_chain_key;
            self.sessions[k].receiving_chain_key = request.receiving_chain_key;
            self.sessions[k].sending_ratchet_key = request.sending_ratchet_key;
            self.sessions[k].receiving_ratchet_key = request.receiving_ratchet_key;
            self.sessions[k].updated_at = now;
        } else {
            self.sessions.push(
                EncryptionSession {
                    session_id,
                    user_id,
                    peer_id,
                    root_key: request.root_key,
                    sending_chain_key: request.sending_chain_key,
                    receiving_chain_key: request.receiving_chain_key,
                    sending_ratchet_key: request.sending_ratchet_key,
                    receiving_ratchet_key: request.receiving_ratchet_key,
                    prev_sending_chain_length: request.prev_sending_chain_length,
                    prev_receiving_chain_length: request.prev_receiving_chain_length,
                    message_number: request.message_number,
                    created_at: now,
                    updated_at: now,
                },
            );
        }
    }

    /// Parks a session as it came over the wire. A request with an id that
    /// is no identifier is refused and changes nothing.
    pub fn store_encryption_session(&mut self, request: StoreSessionRequest, now: i64) -> (result:
        Result<(), ErrorKind>)
        ensures
            result is Ok <==> request_ids(
                uuid_parsed(request.session_id@),
                uuid_parsed(request.user_id@),
                uuid_parsed(request.peer_id@),
            ) is Ok,
            result matches Err(e) ==> e == ErrorKind::Validation && final(self).sessions() == old(
                self,
            ).sessions(),
            result is Ok ==> is_stored(
                old(self).sessions(),
                final(self).sessions(),
                request_ids(
                    uuid_parsed(request.session_id@),
                    uuid_parsed(request.user_id@),
                    uuid_parsed(request.peer_id@),
                )->Ok_0,
                request,
                now,
            ),
    {
        let ids = match check_request_ids(
            parse_id(request.session_id.as_str()),
            parse_id(request.user_id.as_str()),
            parse_id(request.peer_id.as_str()),
        ) {
            Ok(ids) => ids,
            Err(e) => {
                return Err(e);
            },
        };
        self.store(ids, request, now);
        Ok(())
    }

    /// The session of `user` with `peer` that was updated last.
    pub fn latest(&self, user: u128, peer: u128) -> (found: Result<EncryptionSession, ErrorKind>)
        ensures
            match found {
                Ok(s) => latest_index(self.sessions(), user, peer) matches Some(k) && parked(s)
                    == parked(self.sessions()[k]),
                Err(e) => e == ErrorKind::NotFound && latest_index(self.sessions(), user, peer)
                    is None,
            },
    {
        let mut best: Option<usize> = None;
        let mut i: usize = 0;
        proof {
            assert(self.sessions@.take(0) =~= Seq::empty());
        }
        while i < self.sessions.len()
            invariant
                i <= self.sessions.len(),
                match best {
                    Some(k) => k < i && latest_index(self.sessions@.take(i as int), user, peer)
                        == Some(k as int),
                    None => latest_index(self.sessions@.take(i as int), user, peer) is None,
                },
            decreases self.sessions.len() - i,
        {
            proof {
                assert(self.sessions@.take(i as int + 1).drop_last() =~= self.sessions@.take(
                    i as int,
                ));
            }
            if self.sessions[i].user_id == user && self.sessions[i].peer_id == peer {
                match best {
                    None => {
                        best = Some(i);
                    },
                    Some(k) => {
                        assert(self.sessions@.take(i as int + 1)[k as int] == self.sessions@[k as int]);
                        if self.sessions[i].updated_at > self.sessions[k].updated_at {
                            best = Some(i);
                        }
                    },
                }
            }
            i = i + 1;
        }
        proof {
            assert(self.sessions@.take(self.sessions@.len() as int) =~= self.sessions@);
        }
        match best {
            Some(k) => {
                let s = &self.sessions[k];
                Ok(
                    EncryptionSession {
                        session_id: s.session_id,
                        user_id: s.user_id,
                        peer_id: s.peer_id,
                        root_key: copy_bytes(&s.root_key),
                        sending_chain_key: copy_bytes(&s.sending_chain_key),
                        receiving_chain_key: copy_bytes(&s.receiving_chain_key),
                        sending_ratchet_key: copy_bytes(&s.sending_ratchet_key),
                        receiving_ratchet_key: copy_bytes(&s.receiving_ratchet_key),
                        prev_sending_chain_length: s.prev_sending_chain_length,
                        prev_receiving_chain_length: s.prev_receiving_chain_length,
                        message_number: s.message_number,
                        created_at: s.created_at,
                        updated_at: s.updated_at,
                    },
                )
            },
            None => Err(ErrorKind::NotFound),
        }
    }

    /// The session of a user with a peer that was updated last, for a
    /// request as it came over the wire. An id that is no identifier is
    /// refused; where nothing is parked, nothing is found.
    pub fn get_encryption_session(&self, user_id: &str, peer_id: &str) -> (found: Result<
        EncryptionSession,
        ErrorKind,
    >)
        ensures
            match (uuid_parsed(user_id@), uuid_parsed(peer_id@)) {
                (Some(u), Some(p)) => match found {
                    Ok(s) => latest_index(self.sessions(), u, p) matches Some(k) && parked(s)
                        == parked(self.sessions()[k]),
                    Err(e) => e == ErrorKind::NotFound && latest_index(self.sessions(), u, p)
                        is None,
                },
                _ => found matches Err(e) && e == ErrorKind::Validation,
            },
    {
        let user = match parse_id(user_id) {
            Some(u) => u,
            None => {
                return Err(ErrorKind::Validation);
            },
        };
        let peer = match parse_id(peer_id) {
            Some(p) => p,
            None => {
                return Err(ErrorKind::Validation);
            },
        };
        self.latest(user, peer)
    }

    /// Takes out every session with this session id.
    pub fn delete(&mut self, session: u128)
        ensures
            final(self).sessions() == without_session(old(self).sessions(), session),
    {
        let mut kept: Vec<EncryptionSession> = Vec::new();
        let ghost before = self.sessions@;
        let mut rest: Vec<EncryptionSession> = Vec::new();
        std::mem::swap(&mut self.sessions, &mut rest);
        let mut taken: usize = 0;
        let n = rest.len();
        proof {
            assert(before.take(0) =~= Seq::empty());
        }
        while rest.len() > 0
            invariant
                n == before.len(),
                rest.len() <= n,
                taken == n - rest.len(),
                rest@ == before.take(rest.len() as int),
                without_session(before, session) == without_session(rest@, session) + reversed(
                    kept@,
                ),
            decreases rest.len(),
        {
            let ghost r0 = rest@;
            let ghost k0 = kept@;
            let last = rest.pop().unwrap();
            proof {
                assert(r0.drop_last() =~= rest@);
                assert(rest@ =~= before.take(rest.len() as int));
                assert(last == r0.last());
            }
            if last.session_id != session {
                kept.push(last);
                proof {
                    assert(reversed(kept@) =~= seq![last] + reversed(k0)) by {
                        assert(kept@.drop_last() =~= k0);
                    }
                    assert(without_session(r0, session) + reversed(k0) =~= without_session(
                        rest@,
                        session,
                    ) + reversed(kept@));
                }
            }
            taken = taken + 1;
        }
        let mut out: Vec<EncryptionSession> = Vec::new();
        proof {
            assert(without_session(rest@, session) =~= Seq::empty());
            assert(without_session(before, session) =~= reversed(kept@));
        }
        while kept.len() > 0
            invariant
                without_session(before, session) == out@ + reversed(kept@),
            decreases kept.len(),
        {
            let ghost k0 = kept@;
            let ghost o0 = out@;
            let last = kept.pop().unwrap();
            out.push(last);
            proof {
                assert(k0.drop_last() =~= kept@);
                assert(reversed(k0) =~= seq![last] + reversed(kept@));
                assert(o0 + reversed(k0) =~= out@ + reversed(kept@));
            }
        }
        proof {
            assert(reversed(kept@) =~= Seq::empty());
            assert(out@ + Seq::<EncryptionSession>::empty() =~= out@);
        }
        self.sessions = out;
    }

    /// Takes out every session with this session id, for a request as it
    /// came over the wire.
    pub fn delete_encryption_session(&mut self, session_id: &str) -> (result: Result<
        (),
        ErrorKind,
    >)
        ensures
            match uuid_parsed(session_id@) {
                Some(id) => result is Ok && final(self).sessions() == without_session(
                    old(self).sessions(),
                    id,
                ),
                None => result matches Err(e) && e == ErrorKind::Validation
                    && final(self).sessions() == old(self).sessions(),
            },
    {
        match parse_id(session_id) {
            Some(id) => {
                self.delete(id);
                Ok(())
            },
            None => Err(ErrorKind::Validation),
        }
    }
}

/// A sequence back to front.
pub open spec fn reversed(q: Seq<EncryptionSession>) -> Seq<EncryptionSession>
    decreases q.len(),
{
    if q.len() == 0 {
        Seq::empty()
    } else {
        seq![q.last()] + reversed(q.drop_last())
    }
}

/// For how many users the keys of a group are rotated: for its members in
/// good standing. Nothing is said of the keys themselves.
pub fn rotate_group_keys(group: Option<u128>, members_in_good_standing: &Vec<u128>) -> (result:
    Result<usize, ErrorKind>)
    ensures
        result == match group {
            Some(_) => Ok::<usize, ErrorKind>(members_in_good_standing@.len() as usize),
            None => Err::<usize, ErrorKind>(ErrorKind::Validation),
        },
{
    match group {
        Some(_) => Ok(members_in_good_standing.len()),
        None => Err(ErrorKind::Validation),
    }
}

} // verus!
