//! Device-bound sessions: the records behind login, token rotation and
//! revocation.
//!
//! The store never sees a token, only its keyed hash. Rotation does not
//! overwrite a session: it revokes the old record and adds a new one for the
//! same user and device, so that a refresh token that is presented again can
//! be told from one that never existed.

use vstd::prelude::*;
use crate::envelope::{copy_bytes, same_bytes};
use crate::errors::ErrorKind;

verus! {

/// A session record.
#[derive(Debug)]
pub struct Session {
    pub id: u128,
    pub user_id: u128,
    pub device_id: String,
    pub access_token_hash: Vec<u8>,
    pub refresh_token_hash: Vec<u8>,
    pub created_at: i64,
    pub expires_at: i64,
    pub revoked_at: Option<i64>,
}

/// A session record as mathematical values.
pub struct SessionView {
    pub id: u128,
    pub user_id: u128,
    pub device_id: Seq<char>,
    pub access_token_hash: Seq<u8>,
    pub refresh_token_hash: Seq<u8>,
    pub created_at: i64,
    pub expires_at: i64,
    pub revoked_at: Option<i64>,
}

impl View for Session {
    type V = SessionView;

    open spec fn view(&self) -> SessionView {
        SessionView {
            id: self.id,
            user_id: self.user_id,
            device_id: self.device_id@,
            access_token_hash: self.access_token_hash@,
            refresh_token_hash: self.refresh_token_hash@,
            created_at: self.created_at,
            expires_at: self.expires_at,
            revoked_at: self.revoked_at,
        }
    }
}

impl Clone for Session {
    fn clone(&self) -> (copy: Self)
        ensures
            copy@ == self@,
    {
        Session {
            id: self.id,
            user_id: self.user_id,
            device_id: self.device_id.clone(),
            access_token_hash: copy_bytes(&self.access_token_hash),
            refresh_token_hash: copy_bytes(&self.refresh_token_hash),
            created_at: self.created_at,
            expires_at: self.expires_at,
            revoked_at: self.revoked_at,
        }
    }
}

impl SessionView {
    /// Whether the session has not been revoked.
    pub open spec fn active(self) -> bool {
        self.revoked_at is None
    }

    /// Whether the session can be used at `now`: it is neither revoked nor
    /// expired.
    pub open spec fn usable(self, now: i64) -> bool {
        self.active() && now < self.expires_at
    }

    /// The session after a revocation at `now`. The instant of a revocation,
    /// once set, stays.
    pub open spec fn revoked(self, now: i64) -> SessionView {
        if self.active() {
            SessionView { revoked_at: Some(now), ..self }
        } else {
            self
        }
    }
}

/// Which sessions an operation is about.
#[derive(Debug)]
pub enum Selector {
    /// The session with this id.
    Session(u128),
    /// The sessions of this user on this device.
    Device(u128, String),
    /// All sessions of this user.
    User(u128),
    /// The sessions that bear this access token.
    AccessToken(Vec<u8>),
}

/// A selector as mathematical values.
pub enum SelectorView {
    Session(u128),
    Device(u128, Seq<char>),
    User(u128),
    AccessToken(Seq<u8>),
}

impl View for Selector {
    type V = SelectorView;

    open spec fn view(&self) -> SelectorView {
        match *self {
            Selector::Session(id) => SelectorView::Session(id),
            Selector::Device(user, device) => SelectorView::Device(user, device@),
            Selector::User(user) => SelectorView::User(user),
            Selector::AccessToken(hash) => SelectorView::AccessToken(hash@),
        }
    }
}

impl SelectorView {
    /// Whether the selector picks session `s`.
    pub open spec fn picks(self, s: SessionView) -> bool {
        match self {
            SelectorView::Session(id) => s.id == id,
            SelectorView::Device(user, device) => s.user_id == user && s.device_id == device,
            SelectorView::User(user) => s.user_id == user,
            SelectorView::AccessToken(hash) => s.access_token_hash == hash,
        }
    }
}

impl Selector {
    /// Whether the selector picks `session`.
    pub fn picks(&self, session: &Session) -> (picked: bool)
        ensures
            picked == self@.picks(session@),
    {
        match self {
            Selector::Session(id) => session.id == *id,
            Selector::Device(user, device) => session.user_id == *user && session.device_id
                == *device,
            Selector::User(user) => session.user_id == *user,
            Selector::AccessToken(hash) => same_bytes(&session.access_token_hash, hash),
        }
    }
}

/// What the store finds when a refresh token is presented.
pub enum RotateVerdict {
    /// No session has this refresh token.
    Unknown,
    /// The token belongs to a session that was revoked: somebody presents a
    /// token that was used before. The user's sessions are all revoked.
    Reused(u128),
    /// The session of the token has expired.
    Expired,
    /// The new session's id or refresh token is taken.
    Clash,
    /// The new session's end cannot be represented.
    Overflow,
    /// The session at this place is rotated.
    Rotated(int),
}

/// The sessions of a store as mathematical values.
pub struct StoreView {
    pub sessions: Seq<SessionView>,
}

impl StoreView {
    /// Whether a session has this id.
    pub open spec fn has_id(self, id: u128) -> bool {
        exists|i: int| 0 <= i < self.sessions.len() && self.sessions[i].id == id
    }

    /// The place of the session with this id.
    pub open spec fn index_of_id(self, id: u128) -> int {
        choose|i: int| 0 <= i < self.sessions.len() && self.sessions[i].id == id
    }

    /// Whether a session has this refresh token.
    pub open spec fn has_refresh(self, hash: Seq<u8>) -> bool {
        exists|i: int|
            0 <= i < self.sessions.len() && self.sessions[i].refresh_token_hash == hash
    }

    /// The place of the session with this refresh token.
    pub open spec fn index_of_refresh(self, hash: Seq<u8>) -> int {
        choose|i: int|
            0 <= i < self.sessions.len() && self.sessions[i].refresh_token_hash == hash
    }

    /// Whether a session that is not revoked has this access token.
    pub open spec fn has_active_access(self, hash: Seq<u8>) -> bool {
        exists|i: int|
            0 <= i < self.sessions.len() && self.sessions[i].access_token_hash == hash
                && self.sessions[i].active()
    }

    /// The store's invariant: ids and refresh tokens identify a session, a
    /// user has at most one session per device that is not revoked, and
    /// every session ends after it began.
    pub open spec fn valid(self) -> bool {
        &&& forall|i: int, j: int|
            0 <= i < j < self.sessions.len() ==> self.sessions[i].id != self.sessions[j].id
        &&& forall|i: int, j: int|
            0 <= i < j < self.sessions.len() ==> self.sessions[i].refresh_token_hash
                != self.sessions[j].refresh_token_hash
        &&& forall|i: int, j: int|
            0 <= i < j < self.sessions.len() && self.sessions[i].active()
                && self.sessions[j].active() ==> !(self.sessions[i].user_id
                == self.sessions[j].user_id && self.sessions[i].device_id
                == self.sessions[j].device_id)
        &&& forall|i: int|
            0 <= i < self.sessions.len() ==> (#[trigger] self.sessions[i]).created_at
                < self.sessions[i].expires_at
    }

    /// The store after every session that `sel` picks has been revoked at
    /// `now`.
    pub open spec fn revoke_all(self, sel: SelectorView, now: i64) -> StoreView {
        StoreView {
            sessions: Seq::new(
                self.sessions.len(),
                |i: int|
                    if sel.picks(self.sessions[i]) {
                        self.sessions[i].revoked(now)
                    } else {
                        self.sessions[i]
                    },
            ),
        }
    }

    /// The sessions of `user`, in the order of the store.
    pub open spec fn of_user(self, user: u128) -> Seq<SessionView>
        decreases self.sessions.len(),
    {
        if self.sessions.len() == 0 {
            Seq::empty()
        } else {
            let rest = (StoreView { sessions: self.sessions.drop_last() }).of_user(user);
            if self.sessions.last().user_id == user {
                rest.push(self.sessions.last())
            } else {
                rest
            }
        }
    }

    /// Number of sessions that `sel` picks and that are not revoked.
    pub open spec fn count_active(self, sel: SelectorView) -> nat
        decreases self.sessions.len(),
    {
        if self.sessions.len() == 0 {
            0
        } else {
            let rest = StoreView { sessions: self.sessions.drop_last() };
            rest.count_active(sel) + if sel.picks(self.sessions.last())
                && self.sessions.last().active() {
                1nat
            } else {
                0nat
            }
        }
    }

    /// Whether a new session can be added: its id and refresh token are
    /// free, and it ends after it begins.
    pub open spec fn can_add(self, s: SessionView) -> bool {
        !self.has_id(s.id) && !self.has_refresh(s.refresh_token_hash) && s.created_at
            < s.expires_at && s.revoked_at is None
    }

    /// The store after a login: whatever session the user had on the device
    /// is revoked, and the new one is added.
    pub open spec fn after_create(self, s: SessionView) -> StoreView {
        if self.can_add(s) {
            StoreView {
                sessions: self.revoke_all(
                    SelectorView::Device(s.user_id, s.device_id),
                    s.created_at,
                ).sessions.push(s),
            }
        } else {
            self
        }
    }

    /// What presenting the refresh token `presented` at `now` leads to, when
    /// the new session would have id `new_id`, refresh token `new_refresh`
    /// and a life of `ttl` seconds.
    pub open spec fn rotate_verdict(
        self,
        presented: Seq<u8>,
        new_id: u128,
        new_refresh: Seq<u8>,
        now: i64,
        ttl: i64,
    ) -> RotateVerdict {
        if !self.has_refresh(presented) {
            RotateVerdict::Unknown
        } else {
            let k = self.index_of_refresh(presented);
            let s = self.sessions[k];
            if !s.active() {
                RotateVerdict::Reused(s.user_id)
            } else if s.expires_at <= now {
                RotateVerdict::Expired
            } else if self.has_id(new_id) || self.has_refresh(new_refresh) {
                RotateVerdict::Clash
            } else if ttl <= 0 || now + ttl > i64::MAX {
                RotateVerdict::Overflow
            } else {
                RotateVerdict::Rotated(k)
            }
        }
    }

    /// The session that a rotation of session `old` adds.
    pub open spec fn successor(
        old: SessionView,
        new_id: u128,
        new_access: Seq<u8>,
        new_refresh: Seq<u8>,
        now: i64,
        ttl: i64,
    ) -> SessionView {
        SessionView {
            id: new_id,
            user_id: old.user_id,
            device_id: old.device_id,
            access_token_hash: new_access,
            refresh_token_hash: new_refresh,
            created_at: now,
            expires_at: (now + ttl) as i64,
            revoked_at: None,
        }
    }

    /// The store after the refresh token `presented` has been presented.
    pub open spec fn after_rotate(
        self,
        presented: Seq<u8>,
        new_id: u128,
        new_access: Seq<u8>,
        new_refresh: Seq<u8>,
        now: i64,
        ttl: i64,
    ) -> StoreView {
        match self.rotate_verdict(presented, new_id, new_refresh, now, ttl) {
            RotateVerdict::Reused(user) => self.revoke_all(SelectorView::User(user), now),
            RotateVerdict::Rotated(k) => StoreView {
                sessions: self.sessions.update(k, self.sessions[k].revoked(now)).push(
                    Self::successor(self.sessions[k], new_id, new_access, new_refresh, now, ttl),
                ),
            },
            _ => self,
        }
    }

    /// What the caller is told after the refresh token has been presented.
    pub open spec fn rotate_result(
        self,
        presented: Seq<u8>,
        new_id: u128,
        new_refresh: Seq<u8>,
        now: i64,
        ttl: i64,
    ) -> Result<(), ErrorKind> {
        match self.rotate_verdict(presented, new_id, new_refresh, now, ttl) {
            RotateVerdict::Rotated(_) => Ok(()),
            RotateVerdict::Clash => Err(ErrorKind::Conflict),
            RotateVerdict::Overflow => Err(ErrorKind::Validation),
            _ => Err(ErrorKind::Unauthorized),
        }
    }

    /// What a login is answered, when the new session would have this id,
    /// this refresh token and a life of `ttl` seconds from `now`.
    pub open spec fn create_result(self, id: u128, refresh: Seq<u8>, now: i64, ttl: i64) -> Result<
        (),
        ErrorKind,
    > {
        if self.has_id(id) || self.has_refresh(refresh) {
            Err(ErrorKind::Conflict)
        } else if ttl <= 0 || now + ttl > i64::MAX {
            Err(ErrorKind::Validation)
        } else {
            Ok(())
        }
    }

    /// Whom a request in the name of session `id` at `now` is from: the
    /// session's user, as long as the session exists and is neither revoked
    /// nor expired.
    pub open spec fn authorized(self, id: u128, now: i64) -> Result<u128, ErrorKind> {
        if self.has_id(id) && self.sessions[self.index_of_id(id)].usable(now) {
            Ok(self.sessions[self.index_of_id(id)].user_id)
        } else {
            Err(ErrorKind::Unauthorized)
        }
    }

    /// What a request to revoke session `id` is answered, when `caller` asks
    /// and is or is not an administrator.
    pub open spec fn revoke_result(self, id: u128, caller: u128, is_admin: bool) -> Result<
        (),
        ErrorKind,
    > {
        if !self.has_id(id) {
            Err(ErrorKind::NotFound)
        } else if self.sessions[self.index_of_id(id)].user_id != caller && !is_admin {
            Err(ErrorKind::Forbidden)
        } else {
            Ok(())
        }
    }
}

/// The views of a list of sessions.
pub open spec fn session_views(sessions: Seq<Session>) -> Seq<SessionView> {
    Seq::new(sessions.len(), |i: int| sessions[i]@)
}

/// Revoking keeps the store's invariant.
pub proof fn lemma_revoke_all_valid(s: StoreView, sel: SelectorView, now: i64)
    requires
        s.valid(),
    ensures
        s.revoke_all(sel, now).valid(),
        s.revoke_all(sel, now).sessions.len() == s.sessions.len(),
        forall|id: u128| s.revoke_all(sel, now).has_id(id) == s.has_id(id),
        forall|h: Seq<u8>| s.revoke_all(sel, now).has_refresh(h) == s.has_refresh(h),
{
    let t = s.revoke_all(sel, now);
    assert forall|i: int, j: int|
        0 <= i < j < t.sessions.len() && t.sessions[i].active()
            && t.sessions[j].active() implies !(t.sessions[i].user_id == t.sessions[j].user_id
        && t.sessions[i].device_id == t.sessions[j].device_id) by {
        assert(s.sessions[i].active() && s.sessions[j].active());
    }
    assert forall|i: int, j: int| 0 <= i < j < t.sessions.len() implies t.sessions[i].id
        != t.sessions[j].id && t.sessions[i].refresh_token_hash
        != t.sessions[j].refresh_token_hash by {
        assert(s.sessions[i].id != s.sessions[j].id);
    }
    assert forall|id: u128| t.has_id(id) == s.has_id(id) by {
        if s.has_id(id) {
            let k = s.index_of_id(id);
            assert(t.sessions[k].id == id);
        }
        if t.has_id(id) {
            let k = t.index_of_id(id);
            assert(s.sessions[k].id == id);
        }
    }
    assert forall|h: Seq<u8>| t.has_refresh(h) == s.has_refresh(h) by {
        if s.has_refresh(h) {
            let k = s.index_of_refresh(h);
            assert(t.sessions[k].refresh_token_hash == h);
        }
        if t.has_refresh(h) {
            let k = t.index_of_refresh(h);
            assert(s.sessions[k].refresh_token_hash == h);
        }
    }
}

/// A login keeps the store's invariant.
pub proof fn lemma_after_create_valid(s: StoreView, n: SessionView)
    requires
        s.valid(),
    ensures
        s.after_create(n).valid(),
{
    if s.can_add(n) {
        let sel = SelectorView::Device(n.user_id, n.device_id);
        let r = s.revoke_all(sel, n.created_at);
        lemma_revoke_all_valid(s, sel, n.created_at);
        let t = s.after_create(n);
        let len = s.sessions.len() as int;
        assert forall|i: int, j: int| 0 <= i < j < t.sessions.len() implies t.sessions[i].id
            != t.sessions[j].id && t.sessions[i].refresh_token_hash
            != t.sessions[j].refresh_token_hash && (t.sessions[i].active()
            && t.sessions[j].active() ==> !(t.sessions[i].user_id == t.sessions[j].user_id
            && t.sessions[i].device_id == t.sessions[j].device_id)) by {
            if j == len {
                assert(s.sessions[i].id != n.id);
                assert(s.sessions[i].refresh_token_hash != n.refresh_token_hash);
                assert(sel.picks(s.sessions[i]) ==> !r.sessions[i].active());
            } else {
                assert(r.sessions[i].id != r.sessions[j].id);
            }
        }
    }
}

/// Where refresh tokens identify a session, the place of a session is the
/// one at which its token is found.
pub proof fn lemma_refresh_index(s: StoreView, hash: Seq<u8>, i: int)
    requires
        s.valid(),
        0 <= i < s.sessions.len(),
        s.sessions[i].refresh_token_hash == hash,
    ensures
        s.has_refresh(hash),
        s.index_of_refresh(hash) == i,
{
    let k = s.index_of_refresh(hash);
    assert(0 <= k < s.sessions.len() && s.sessions[k].refresh_token_hash == hash);
    if k < i {
        assert(s.sessions[k].refresh_token_hash != s.sessions[i].refresh_token_hash);
    } else if i < k {
        assert(s.sessions[i].refresh_token_hash != s.sessions[k].refresh_token_hash);
    }
}

/// Where ids identify a session, the place of a session is the one at which
/// its id is found.
pub proof fn lemma_id_index(s: StoreView, id: u128, i: int)
    requires
        s.valid(),
        0 <= i < s.sessions.len(),
        s.sessions[i].id == id,
    ensures
        s.has_id(id),
        s.index_of_id(id) == i,
{
    let k = s.index_of_id(id);
    assert(0 <= k < s.sessions.len() && s.sessions[k].id == id);
    if k < i {
        assert(s.sessions[k].id != s.sessions[i].id);
    } else if i < k {
        assert(s.sessions[i].id != s.sessions[k].id);
    }
}

/// Presenting a refresh token keeps the store's invariant.
pub proof fn lemma_after_rotate_valid(
    s: StoreView,
    presented: Seq<u8>,
    new_id: u128,
    new_access: Seq<u8>,
    new_refresh: Seq<u8>,
    now: i64,
    ttl: i64,
)
    requires
        s.valid(),
    ensures
        s.after_rotate(presented, new_id, new_access, new_refresh, now, ttl).valid(),
{
    let t = s.after_rotate(presented, new_id, new_access, new_refresh, now, ttl);
    match s.rotate_verdict(presented, new_id, new_refresh, now, ttl) {
        RotateVerdict::Reused(user) => {
            lemma_revoke_all_valid(s, SelectorView::User(user), now);
        },
        RotateVerdict::Rotated(k) => {
            let len = s.sessions.len() as int;
            let old = s.sessions[k];
            assert(old.active());
            assert forall|i: int, j: int| 0 <= i < j < t.sessions.len() implies t.sessions[i].id
                != t.sessions[j].id && t.sessions[i].refresh_token_hash
                != t.sessions[j].refresh_token_hash && (t.sessions[i].active()
                && t.sessions[j].active() ==> !(t.sessions[i].user_id == t.sessions[j].user_id
                && t.sessions[i].device_id == t.sessions[j].device_id)) by {
                if j == len {
                    assert(s.sessions[i].id != new_id);
                    assert(s.sessions[i].refresh_token_hash != new_refresh);
                    if i != k && s.sessions[i].active() {
                        if i < k {
                            assert(!(s.sessions[i].user_id == s.sessions[k].user_id
                                && s.sessions[i].device_id == s.sessions[k].device_id));
                        } else {
                            assert(!(s.sessions[k].user_id == s.sessions[i].user_id
                                && s.sessions[k].device_id == s.sessions[i].device_id));
                        }
                    }
                } else {
                    assert(s.sessions[i].id != s.sessions[j].id);
                }
            }
        },
        _ => {},
    }
}

/// One session per device. Of the sessions that are not revoked, no two
/// belong to the same user and device.
pub proof fn lemma_one_session_per_device(s: StoreView, i: int, j: int)
    requires
        s.valid(),
        0 <= i < s.sessions.len(),
        0 <= j < s.sessions.len(),
        s.sessions[i].active(),
        s.sessions[j].active(),
        s.sessions[i].user_id == s.sessions[j].user_id,
        s.sessions[i].device_id == s.sessions[j].device_id,
    ensures
        i == j,
{
    if i < j {
        assert(!(s.sessions[i].user_id == s.sessions[j].user_id && s.sessions[i].device_id
            == s.sessions[j].device_id));
    } else if j < i {
        assert(!(s.sessions[j].user_id == s.sessions[i].user_id && s.sessions[j].device_id
            == s.sessions[i].device_id));
    }
}

/// Revocation stays. A session that was revoked keeps the instant of its
/// revocation through every login, rotation and revocation that follows.
pub proof fn lemma_revocation_stays(
    s: StoreView,
    i: int,
    sel: SelectorView,
    created: SessionView,
    presented: Seq<u8>,
    new_id: u128,
    new_access: Seq<u8>,
    new_refresh: Seq<u8>,
    now: i64,
    ttl: i64,
)
    requires
        0 <= i < s.sessions.len(),
        s.sessions[i].revoked_at is Some,
    ensures
        s.revoke_all(sel, now).sessions[i] == s.sessions[i],
        s.after_create(created).sessions[i] == s.sessions[i],
        s.after_rotate(presented, new_id, new_access, new_refresh, now, ttl).sessions[i]
            == s.sessions[i],
{
}

/// After every session that `sel` picks has been revoked, none of them is
/// in use.
pub proof fn lemma_revoke_all_leaves_none(s: StoreView, sel: SelectorView, now: i64, i: int)
    requires
        0 <= i < s.sessions.len(),
        sel.picks(s.sessions[i]),
    ensures
        !s.revoke_all(sel, now).sessions[i].active(),
        sel.picks(s.revoke_all(sel, now).sessions[i]),
{
}

/// Rotation revokes what was presented. A rotation revokes the session of
/// the presented refresh token in the same step in which it adds the
/// session of the new tokens. Whoever presents the old token once more is
/// refused, and no session of the user stays in use.
pub proof fn lemma_rotation_revokes_presented(
    s: StoreView,
    presented: Seq<u8>,
    new_id: u128,
    new_access: Seq<u8>,
    new_refresh: Seq<u8>,
    now: i64,
    ttl: i64,
    again_id: u128,
    again_access: Seq<u8>,
    again_refresh: Seq<u8>,
    again_now: i64,
    again_ttl: i64,
)
    requires
        s.valid(),
        s.rotate_result(presented, new_id, new_refresh, now, ttl) is Ok,
    ensures
        ({
            let t = s.after_rotate(presented, new_id, new_access, new_refresh, now, ttl);
            let k = s.index_of_refresh(presented);
            let u = t.after_rotate(
                presented,
                again_id,
                again_access,
                again_refresh,
                again_now,
                again_ttl,
            );
            &&& t.valid()
            &&& t.sessions.len() == s.sessions.len() + 1
            &&& t.has_refresh(presented)
            &&& t.index_of_refresh(presented) == k
            &&& t.sessions[k].revoked_at == Some(now)
            &&& t.sessions.last() == StoreView::successor(
                s.sessions[k],
                new_id,
                new_access,
                new_refresh,
                now,
                ttl,
            )
            &&& t.sessions.last().active()
            &&& t.rotate_result(presented, again_id, again_refresh, again_now, again_ttl) == Err::<
                (),
                ErrorKind,
            >(ErrorKind::Unauthorized)
            &&& u.valid()
            &&& forall|i: int|
                0 <= i < u.sessions.len() && (#[trigger] u.sessions[i]).user_id
                    == s.sessions[k].user_id ==> !u.sessions[i].active()
        }),
{
    let t = s.after_rotate(presented, new_id, new_access, new_refresh, now, ttl);
    let k = s.index_of_refresh(presented);
    lemma_after_rotate_valid(s, presented, new_id, new_access, new_refresh, now, ttl);
    assert(s.rotate_verdict(presented, new_id, new_refresh, now, ttl) == RotateVerdict::Rotated(k));
    assert(t.sessions[k].refresh_token_hash == presented);
    lemma_refresh_index(t, presented, k);
    let u = t.after_rotate(presented, again_id, again_access, again_refresh, again_now, again_ttl);
    lemma_after_rotate_valid(
        t,
        presented,
        again_id,
        again_access,
        again_refresh,
        again_now,
        again_ttl,
    );
    let user = s.sessions[k].user_id;
    assert(t.rotate_verdict(presented, again_id, again_refresh, again_now, again_ttl)
        == RotateVerdict::Reused(user));
    assert forall|i: int|
        0 <= i < u.sessions.len() && (#[trigger] u.sessions[i]).user_id == user implies
        !u.sessions[i].active() by {
        lemma_revoke_all_leaves_none(t, SelectorView::User(user), again_now, i);
    }
}

/// The session store.
#[derive(Debug)]
pub struct SessionStore {
    sessions: Vec<Session>,
}

impl View for SessionStore {
    type V = StoreView;

    closed spec fn view(&self) -> StoreView {
        StoreView { sessions: Seq::new(self.sessions@.len(), |i: int| self.sessions@[i]@) }
    }
}

impl SessionStore {
    /// Whether the store's invariant holds.
    pub open spec fn wf(&self) -> bool {
        self@.valid()
    }

    /// A store without sessions.
    pub fn new() -> (store: SessionStore)
        ensures
            store.wf(),
            store@.sessions.len() == 0,
    {
        SessionStore { sessions: Vec::new() }
    }

    /// Number of session records, revoked ones included.
    pub fn len(&self) -> (n: usize)
        ensures
            n == self@.sessions.len(),
    {
        self.sessions.len()
    }

    fn find_by_id(&self, id: u128) -> (found: Option<usize>)
        requires
            self.wf(),
        ensures
            match found {
                Some(i) => i < self.sessions@.len() && self@.has_id(id) && self@.index_of_id(id)
                    == i,
                None => !self@.has_id(id),
            },
    {
        let mut i: usize = 0;
        while i < self.sessions.len()
            invariant
                self.wf(),
                i <= self.sessions.len(),
                forall|j: int| 0 <= j < i ==> self@.sessions[j].id != id,
            decreases self.sessions.len() - i,
        {
            if self.sessions[i].id == id {
                proof {
                    lemma_id_index(self@, id, i as int);
                }
                return Some(i);
            }
            i = i + 1;
        }
        None
    }

    fn find_by_refresh(&self, hash: &Vec<u8>) -> (found: Option<usize>)
        requires
            self.wf(),
        ensures
            match found {
                Some(i) => i < self.sessions@.len() && self@.has_refresh(hash@)
                    && self@.index_of_refresh(hash@) == i,
                None => !self@.has_refresh(hash@),
            },
    {
        let mut i: usize = 0;
        while i < self.sessions.len()
            invariant
                self.wf(),
                i <= self.sessions.len(),
                forall|j: int| 0 <= j < i ==> self@.sessions[j].refresh_token_hash != hash@,
            decreases self.sessions.len() - i,
        {
            if same_bytes(&self.sessions[i].refresh_token_hash, hash) {
                proof {
                    lemma_refresh_index(self@, hash@, i as int);
                }
                return Some(i);
            }
            i = i + 1;
        }
        None
    }

    /// The session with this id.
    pub fn session(&self, id: u128) -> (found: Option<&Session>)
        requires
            self.wf(),
        ensures
            match found {
                Some(s) => self@.has_id(id) && s@ == self@.sessions[self@.index_of_id(id)],
                None => !self@.has_id(id),
            },
    {
        match self.find_by_id(id) {
            Some(i) => Some(&self.sessions[i]),
            None => None,
        }
    }

    /// Says whom a request in the name of session `id` at `now` is from. A
    /// session that is unknown, revoked or expired speaks for nobody.
    pub fn authorize(&self, id: u128, now: i64) -> (result: Result<u128, ErrorKind>)
        requires
            self.wf(),
        ensures
            result == self@.authorized(id, now),
    {
        match self.find_by_id(id) {
            Some(k) => {
                if self.sessions[k].revoked_at.is_none() && now < self.sessions[k].expires_at {
                    Ok(self.sessions[k].user_id)
                } else {
                    Err(ErrorKind::Unauthorized)
                }
            },
            None => Err(ErrorKind::Unauthorized),
        }
    }

    /// The session with this refresh token, revoked or not.
    pub fn get_session_by_refresh_hash(&self, hash: &Vec<u8>) -> (found: Option<&Session>)
        requires
            self.wf(),
        ensures
            match found {
                Some(s) => self@.has_refresh(hash@) && s@
                    == self@.sessions[self@.index_of_refresh(hash@)],
                None => !self@.has_refresh(hash@),
            },
    {
        match self.find_by_refresh(hash) {
            Some(i) => Some(&self.sessions[i]),
            None => None,
        }
    }

    /// The sessions of `user`, revoked ones included, in the order in
    /// which they were created.
    pub fn list_sessions(&self, user: u128) -> (found: Vec<Session>)
        ensures
            session_views(found@) == self@.of_user(user),
    {
        let mut found: Vec<Session> = Vec::new();
        let mut i: usize = 0;
        proof {
            assert(self@.sessions.take(0) =~= Seq::empty());
        }
        while i < self.sessions.len()
            invariant
                i <= self.sessions.len(),
                session_views(found@) == (StoreView {
                    sessions: self@.sessions.take(i as int),
                }).of_user(user),
            decreases self.sessions.len() - i,
        {
            proof {
                assert(self@.sessions.take(i as int + 1).drop_last() =~= self@.sessions.take(
                    i as int,
                ));
            }
            if self.sessions[i].user_id == user {
                let ghost before = session_views(found@);
                found.push(self.sessions[i].clone());
                proof {
                    assert(session_views(found@) =~= before.push(self@.sessions[i as int]));
                }
            }
            i = i + 1;
        }
        proof {
            assert(self@.sessions.take(self.sessions.len() as int) =~= self@.sessions);
        }
        found
    }

    /// Revokes at `now` every session that `sel` picks and that is not
    /// revoked yet. Returns how many sessions that were.
    pub fn revoke_matching(&mut self, sel: &Selector, now: i64) -> (revoked: usize)
        requires
            old(self).wf(),
        ensures
            final(self).wf(),
            final(self)@ == old(self)@.revoke_all(sel@, now),
            revoked == old(self)@.count_active(sel@),
    {
        let mut revoked: usize = 0;
        let mut i: usize = 0;
        let ghost before = self@;
        proof {
            assert(before.sessions.take(0) =~= Seq::empty());
            assert(self@.sessions.take(0) =~= before.revoke_all(sel@, now).sessions.take(0));
            assert(self@.sessions.skip(0) =~= before.sessions.skip(0));
        }
        while i < self.sessions.len()
            invariant
                before == old(self)@,
                i <= self.sessions.len(),
                self.sessions.len() == before.sessions.len(),
                revoked <= i,
                revoked == (StoreView { sessions: before.sessions.take(i as int) }).count_active(
                    sel@,
                ),
                self@.sessions.take(i as int) == before.revoke_all(sel@, now).sessions.take(
                    i as int,
                ),
                self@.sessions.skip(i as int) == before.sessions.skip(i as int),
            decreases self.sessions.len() - i,
        {
            proof {
                assert(before.sessions.take(i as int + 1).drop_last() =~= before.sessions.take(
                    i as int,
                ));
            }
            let ghost prev = self@;
            if sel.picks(&self.sessions[i]) && self.sessions[i].revoked_at.is_none() {
                self.sessions[i].revoked_at = Some(now);
                revoked = revoked + 1;
            }
            proof {
                let target = before.revoke_all(sel@, now).sessions;
                let n = i as int + 1;
                let cur = self@.sessions;
                assert(prev.sessions[i as int] == prev.sessions.skip(i as int)[0]);
                assert(prev.sessions[i as int] == before.sessions[i as int]);
                assert forall|j: int| 0 <= j < n implies #[trigger] cur.take(n)[j] == target.take(
                    n,
                )[j] by {
                    if j < i {
                        assert(cur[j] == prev.sessions[j]);
                        assert(prev.sessions.take(i as int)[j] == target.take(i as int)[j]);
                    }
                }
                assert(cur.take(n) =~= target.take(n));
                assert forall|j: int| 0 <= j < cur.len() - n implies #[trigger] cur.skip(n)[j]
                    == before.sessions.skip(n)[j] by {
                    assert(cur[j + n] == prev.sessions[j + n]);
                    assert(prev.sessions.skip(i as int)[j + 1] == before.sessions.skip(i as int)[j
                        + 1]);
                }
                assert(cur.skip(n) =~= before.sessions.skip(n));
            }
            i = i + 1;
        }
        proof {
            assert(before.sessions.take(before.sessions.len() as int) =~= before.sessions);
            assert(self@.sessions.take(i as int) =~= self@.sessions);
            assert(before.revoke_all(sel@, now).sessions.take(i as int) =~= before.revoke_all(
                sel@,
                now,
            ).sessions);
            lemma_revoke_all_valid(before, sel@, now);
        }
        revoked
    }

    /// Says what the attempt to create a session would be answered,
    /// without changing anything.
    pub fn check_create(&self, id: u128, refresh_token_hash: &Vec<u8>, now: i64, ttl: i64) -> (result:
        Result<(), ErrorKind>)
        requires
            self.wf(),
        ensures
            result == self@.create_result(id, refresh_token_hash@, now, ttl),
    {
        if self.find_by_id(id).is_some() || self.find_by_refresh(refresh_token_hash).is_some() {
            return Err(ErrorKind::Conflict);
        }
        if ttl <= 0 || now > i64::MAX - ttl {
            return Err(ErrorKind::Validation);
        }
        Ok(())
    }

    /// Creates the session of a login at `now` with a life of `ttl`
    /// seconds. Whatever session the user had on the device is revoked with
    /// it. Nothing changes where the id or the refresh token is taken or the
    /// session's end cannot be represented.
    pub fn create_session(
        &mut self,
        id: u128,
        user_id: u128,
        device_id: String,
        access_token_hash: Vec<u8>,
        refresh_token_hash: Vec<u8>,
        now: i64,
        ttl: i64,
    ) -> (result: Result<(), ErrorKind>)
        requires
            old(self).wf(),
        ensures
            final(self).wf(),
            result == old(self)@.create_result(id, refresh_token_hash@, now, ttl),
            final(self)@ == match result {
                Ok(_) => old(self)@.after_create(
                    SessionView {
                        id,
                        user_id,
                        device_id: device_id@,
                        access_token_hash: access_token_hash@,
                        refresh_token_hash: refresh_token_hash@,
                        created_at: now,
                        expires_at: (now + ttl) as i64,
                        revoked_at: None,
                    },
                ),
                Err(_) => old(self)@,
            },
            result is Ok ==> final(self)@.sessions.len() == old(self)@.sessions.len() + 1,
    {
        if self.find_by_id(id).is_some() || self.find_by_refresh(&refresh_token_hash).is_some() {
            return Err(ErrorKind::Conflict);
        }
        if ttl <= 0 || now > i64::MAX - ttl {
            return Err(ErrorKind::Validation);
        }
        let session = Session {
            id,
            user_id,
            device_id: device_id.clone(),
            access_token_hash,
            refresh_token_hash,
            created_at: now,
            expires_at: now + ttl,
            revoked_at: None,
        };
        proof {
            lemma_after_create_valid(self@, session@);
        }
        let sel = Selector::Device(user_id, device_id);
        let _ = self.revoke_matching(&sel, now);
        self.sessions.push(session);
        proof {
            assert(self@.sessions =~= old(self)@.after_create(session@).sessions);
        }
        Ok(())
    }

    /// Handles a refresh token that a client presents at `now`. A token of
    /// a session in use rotates it: the session is revoked and a new one
    /// for the same user and device is added, with the new id and tokens
    /// and a life of `ttl` seconds. A token of a revoked session revokes
    /// every session of its user.
    pub fn rotate_session_tokens(
        &mut self,
        presented: &Vec<u8>,
        new_id: u128,
        new_access_token_hash: Vec<u8>,
        new_refresh_token_hash: Vec<u8>,
        now: i64,
        ttl: i64,
    ) -> (result: Result<(), ErrorKind>)
        requires
            old(self).wf(),
        ensures
            final(self).wf(),
            result == old(self)@.rotate_result(
                presented@,
                new_id,
                new_refresh_token_hash@,
                now,
                ttl,
            ),
            final(self)@ == old(self)@.after_rotate(
                presented@,
                new_id,
                new_access_token_hash@,
                new_refresh_token_hash@,
                now,
                ttl,
            ),
    {
        proof {
            lemma_after_rotate_valid(
                self@,
                presented@,
                new_id,
                new_access_token_hash@,
                new_refresh_token_hash@,
                now,
                ttl,
            );
        }
        let k = match self.find_by_refresh(presented) {
            Some(k) => k,
            None => {
                return Err(ErrorKind::Unauthorized);
            },
        };
        if self.sessions[k].revoked_at.is_some() {
            let sel = Selector::User(self.sessions[k].user_id);
            let _ = self.revoke_matching(&sel, now);
            return Err(ErrorKind::Unauthorized);
        }
        if self.sessions[k].expires_at <= now {
            return Err(ErrorKind::Unauthorized);
        }
        if self.find_by_id(new_id).is_some() || self.find_by_refresh(
            &new_refresh_token_hash,
        ).is_some() {
            return Err(ErrorKind::Conflict);
        }
        if ttl <= 0 || now > i64::MAX - ttl {
            return Err(ErrorKind::Validation);
        }
        let successor = Session {
            id: new_id,
            user_id: self.sessions[k].user_id,
            device_id: self.sessions[k].device_id.clone(),
            access_token_hash: new_access_token_hash,
            refresh_token_hash: new_refresh_token_hash,
            created_at: now,
            expires_at: now + ttl,
            revoked_at: None,
        };
        self.sessions[k].revoked_at = Some(now);
        self.sessions.push(successor);
        proof {
            let t = old(self)@.after_rotate(
                presented@,
                new_id,
                new_access_token_hash@,
                new_refresh_token_hash@,
                now,
                ttl,
            );
            assert(self@.sessions =~= t.sessions);
        }
        Ok(())
    }

    /// Revokes session `id` at `now` on behalf of `caller`. Only the owner
    /// and administrators may do so. The record stays in the store; a
    /// session that was revoked before keeps the instant of its revocation.
    pub fn revoke_session(&mut self, id: u128, caller: u128, is_admin: bool, now: i64) -> (result:
        Result<(), ErrorKind>)
        requires
            old(self).wf(),
        ensures
            final(self).wf(),
            result == old(self)@.revoke_result(id, caller, is_admin),
            final(self)@ == match result {
                Ok(_) => old(self)@.revoke_all(SelectorView::Session(id), now),
                Err(_) => old(self)@,
            },
    {
        let k = match self.find_by_id(id) {
            Some(k) => k,
            None => {
                return Err(ErrorKind::NotFound);
            },
        };
        if self.sessions[k].user_id != caller && !is_admin {
            return Err(ErrorKind::Forbidden);
        }
        let _ = self.revoke_matching(&Selector::Session(id), now);
        Ok(())
    }

    /// Ends the session that bears this access token. Fails where no
    /// session in use bears it.
    pub fn logout(&mut self, access_token_hash: Vec<u8>, now: i64) -> (result: Result<
        (),
        ErrorKind,
    >)
        requires
            old(self).wf(),
        ensures
            final(self).wf(),
            final(self)@ == old(self)@.revoke_all(
                SelectorView::AccessToken(access_token_hash@),
                now,
            ),
            result == if old(self)@.count_active(SelectorView::AccessToken(access_token_hash@))
                > 0 {
                Ok::<(), ErrorKind>(())
            } else {
                Err::<(), ErrorKind>(ErrorKind::Unauthorized)
            },
    {
        let sel = Selector::AccessToken(access_token_hash);
        let n = self.revoke_matching(&sel, now);
        if n > 0 {
            Ok(())
        } else {
            Err(ErrorKind::Unauthorized)
        }
    }
}

} // verus!
