//! Presence: which devices of a user were heard of lately, and what the user
//! counts as when several devices say different things.
//!
//! Presence is a best effort. Every report lives for five minutes; a user
//! counts as what the best live report says, where `online` beats every
//! custom status, a custom status beats `offline`, and among equals the
//! report that was active last wins.

use vstd::prelude::*;
use vstd::string::StringExecFns;
use crate::bus::{Route, Topic};
use crate::errors::ErrorKind;
use crate::ids::{format_id, uuid_parsed, uuid_text};
use crate::text::{copy_optional_text, same_text};

verus! {

/// Seconds for which a report of presence is good.
pub const PRESENCE_TTL_SECS: i64 = 300;

/// What one device has reported.
#[derive(Debug)]
pub struct PresenceState {
    pub user_id: u128,
    pub status: String,
    pub device_id: String,
    pub ip_address: Option<String>,
    pub user_agent: Option<String>,
    pub custom_status: Option<String>,
    pub last_active: i64,
    pub expires_at: i64,
}

impl Clone for PresenceState {
    fn clone(&self) -> (copy: Self)
        ensures
            copy == *self,
    {
        PresenceState {
            user_id: self.user_id,
            status: self.status.clone(),
            device_id: self.device_id.clone(),
            ip_address: copy_optional_text(&self.ip_address),
            user_agent: copy_optional_text(&self.user_agent),
            custom_status: copy_optional_text(&self.custom_status),
            last_active: self.last_active,
            expires_at: self.expires_at,
        }
    }
}

/// What a user counts as, all devices taken together.
#[derive(Debug)]
pub struct UserPresence {
    pub status: String,
    pub last_active: i64,
    pub custom_status: Option<String>,
    /// Number of devices with a live report.
    pub devices: usize,
}

/// A change of presence as it travels on `presence-events`.
#[derive(Debug)]
pub struct PresenceEvent {
    pub user_id: u128,
    pub status: String,
    pub device_id: String,
    pub timestamp: i64,
    pub custom_status: Option<String>,
}

/// A friend who is online.
#[derive(Debug)]
pub struct FriendPresence {
    pub user_id: u128,
    pub status: String,
    pub last_active: i64,
    pub custom_status: Option<String>,
}

/// The key under which the report of a device lives in the store.
pub open spec fn spec_device_key(user: u128, device: Seq<char>) -> Seq<char> {
    "presence:"@ + uuid_text(user) + ":"@ + device
}

/// The key under which the device keys of a user are collected.
pub open spec fn spec_user_key(user: u128) -> Seq<char> {
    "user_presence:"@ + uuid_text(user)
}

/// Builds the key under which the report of a device lives in the store.
pub fn device_key(user: u128, device: &str) -> (key: String)
    ensures
        key@ == spec_device_key(user, device@),
{
    let mut key = String::from_str("presence:");
    key.append(format_id(user).as_str());
    key.append(":");
    key.append(device);
    key
}

/// Builds the key under which the device keys of a user are collected.
pub fn user_key(user: u128) -> (key: String)
    ensures
        key@ == spec_user_key(user),
{
    let mut key = String::from_str("user_presence:");
    key.append(format_id(user).as_str());
    key
}

/// How much a status counts: `online` most, `offline` least, anything else
/// in between.
pub open spec fn status_rank(status: Seq<char>) -> int {
    if status == "online"@ {
        2
    } else if status == "offline"@ {
        0
    } else {
        1
    }
}

/// Whether report `a` beats report `b`: it has the higher status, or the
/// same and was active later.
pub open spec fn beats(a: PresenceState, b: PresenceState) -> bool {
    status_rank(a.status@) > status_rank(b.status@) || (status_rank(a.status@) == status_rank(
        b.status@,
    ) && a.last_active > b.last_active)
}

/// Whether a report is about `user` and still good at `now`.
pub open spec fn counts_for(s: PresenceState, user: u128, now: i64) -> bool {
    s.user_id == user && s.expires_at > now
}

/// The best live report of `user` among `states`: the first that no other
/// one beats.
pub open spec fn best_report(states: Seq<PresenceState>, user: u128, now: i64) -> Option<
    PresenceState,
>
    decreases states.len(),
{
    if states.len() == 0 {
        None
    } else {
        let before = best_report(states.drop_last(), user, now);
        let s = states.last();
        if !counts_for(s, user, now) {
            before
        } else {
            match before {
                None => Some(s),
                Some(b) => if beats(s, b) {
                    Some(s)
                } else {
                    Some(b)
                },
            }
        }
    }
}

/// Number of live reports of `user` among `states`.
pub open spec fn live_reports(states: Seq<PresenceState>, user: u128, now: i64) -> nat
    decreases states.len(),
{
    if states.len() == 0 {
        0
    } else {
        live_reports(states.drop_last(), user, now) + if counts_for(states.last(), user, now) {
            1nat
        } else {
            0nat
        }
    }
}

/// The reports of `states` that are kept at `now`: those that are still
/// good, and, where `only` names a user, also all those of other users.
pub open spec fn kept_reports(states: Seq<PresenceState>, only: Option<u128>, now: i64) -> Seq<
    PresenceState,
>
    decreases states.len(),
{
    if states.len() == 0 {
        Seq::empty()
    } else {
        let before = kept_reports(states.drop_last(), only, now);
        let s = states.last();
        if s.expires_at > now || (only is Some && only != Some(s.user_id)) {
            before.push(s)
        } else {
            before
        }
    }
}

/// The place of the report of a device of a user; the number of reports
/// where there is none.
pub open spec fn report_index(states: Seq<PresenceState>, user: u128, device: Seq<char>) -> int
    decreases states.len(),
{
    if states.len() == 0 {
        0
    } else if states[0].user_id == user && states[0].device_id@ == device {
        0
    } else {
        1 + report_index(states.skip(1), user, device)
    }
}

/// A report after the device has reported again: status, custom status and
/// instants are new, what is known of the device's origin stays.
pub open spec fn refreshed(old: PresenceState, new: PresenceState) -> PresenceState {
    PresenceState {
        status: new.status,
        custom_status: new.custom_status,
        last_active: new.last_active,
        expires_at: new.expires_at,
        ..old
    }
}

/// The reports after `new` has come in: it refreshes the report of its
/// device or joins the others.
pub open spec fn with_report(states: Seq<PresenceState>, new: PresenceState) -> Seq<PresenceState> {
    let k = report_index(states, new.user_id, new.device_id@);
    if k < states.len() {
        states.update(k, refreshed(states[k], new))
    } else {
        states.push(new)
    }
}

/// No live report of the user beats the best one, and the best one is a
/// live report of the user.
pub proof fn lemma_best_report(states: Seq<PresenceState>, user: u128, now: i64)
    ensures
        match best_report(states, user, now) {
            Some(b) => {
                &&& states.contains(b)
                &&& counts_for(b, user, now)
                &&& forall|i: int|
                    0 <= i < states.len() && counts_for(states[i], user, now) ==> !beats(
                        #[trigger] states[i],
                        b,
                    )
            },
            None => forall|i: int|
                0 <= i < states.len() ==> !counts_for(#[trigger] states[i], user, now),
        },
        best_report(states, user, now) is Some <==> live_reports(states, user, now) > 0,
    decreases states.len(),
{
    if states.len() > 0 {
        let rest = states.drop_last();
        let s = states.last();
        lemma_best_report(rest, user, now);
        match best_report(states, user, now) {
            Some(b) => {
                match best_report(rest, user, now) {
                    Some(p) => {
                        if b == p {
                            let k = choose|k: int| 0 <= k < rest.len() && rest[k] == p;
                            assert(states[k] == b);
                        } else {
                            assert(states[states.len() - 1] == b);
                        }
                        assert forall|i: int|
                            0 <= i < states.len() && counts_for(
                                states[i],
                                user,
                                now,
                            ) implies !beats(#[trigger] states[i], b) by {
                            if i < rest.len() {
                                assert(states[i] == rest[i]);
                                assert(!beats(rest[i], p));
                            }
                        }
                    },
                    None => {
                        assert(states[states.len() - 1] == b);
                        assert forall|i: int|
                            0 <= i < states.len() && counts_for(
                                states[i],
                                user,
                                now,
                            ) implies !beats(#[trigger] states[i], b) by {
                            if i < rest.len() {
                                assert(states[i] == rest[i]);
                            }
                        }
                    },
                }
            },
            None => {
                assert forall|i: int| 0 <= i < states.len() implies !counts_for(
                    #[trigger] states[i],
                    user,
                    now,
                ) by {
                    if i < rest.len() {
                        assert(states[i] == rest[i]);
                    }
                }
            },
        }
    }
}

/// Precedence of presence. A user with a live `online` report counts as
/// online, whatever the other devices say.
pub proof fn lemma_online_wins(states: Seq<PresenceState>, user: u128, now: i64, i: int)
    requires
        0 <= i < states.len(),
        counts_for(states[i], user, now),
        states[i].status@ == "online"@,
    ensures
        best_report(states, user, now) matches Some(b) && b.status@ == "online"@,
{
    lemma_best_report(states, user, now);
    let b = best_report(states, user, now)->0;
    assert(!beats(states[i], b));
}

/// Precedence of presence. A user with a live report of a custom status
/// does not count as offline, whatever the other devices say.
pub proof fn lemma_custom_beats_offline(states: Seq<PresenceState>, user: u128, now: i64, i: int)
    requires
        0 <= i < states.len(),
        counts_for(states[i], user, now),
        states[i].status@ != "offline"@,
    ensures
        best_report(states, user, now) matches Some(b) && b.status@ != "offline"@,
{
    reveal_strlit("online");
    reveal_strlit("offline");
    assert("online"@.len() != "offline"@.len());
    lemma_best_report(states, user, now);
    let b = best_report(states, user, now)->0;
    assert(!beats(states[i], b));
}

/// Among live reports of one rank the one that was active last counts.
pub proof fn lemma_latest_wins(states: Seq<PresenceState>, user: u128, now: i64, i: int)
    requires
        0 <= i < states.len(),
        counts_for(states[i], user, now),
    ensures
        best_report(states, user, now) matches Some(b) && (status_rank(b.status@) > status_rank(
            states[i].status@,
        ) || (status_rank(b.status@) == status_rank(states[i].status@) && b.last_active
            >= states[i].last_active)),
{
    lemma_best_report(states, user, now);
    let b = best_report(states, user, now)->0;
    assert(!beats(states[i], b));
}

/// The rank of a status.
pub fn rank_of(status: &str) -> (rank: u8)
    ensures
        rank == status_rank(status@),
{
    if same_text(status, "online") {
        2
    } else if same_text(status, "offline") {
        0
    } else {
        1
    }
}

/// The presence of a user for whom nothing live is known.
pub open spec fn is_absent(p: UserPresence) -> bool {
    p.status@ == "offline"@ && p.last_active == 0 && p.custom_status is None && p.devices == 0
}

/// Whether `p` is what `user` counts as at `now`, given the reports
/// `states`.
pub open spec fn is_aggregate(p: UserPresence, states: Seq<PresenceState>, user: u128, now: i64)
    -> bool {
    match best_report(states, user, now) {
        Some(b) => p.status@ == b.status@ && p.last_active == b.last_active && p.custom_status
            == b.custom_status && p.devices == live_reports(states, user, now),
        None => is_absent(p),
    }
}

/// Works out what `user` counts as at `now`.
pub fn aggregate_presence(states: &Vec<PresenceState>, user: u128, now: i64) -> (presence:
    UserPresence)
    ensures
        is_aggregate(presence, states@, user, now),
{
    let mut best: Option<usize> = None;
    let mut devices: usize = 0;
    let mut i: usize = 0;
    proof {
        assert(states@.take(0) =~= Seq::empty());
    }
    while i < states.len()
        invariant
            i <= states.len(),
            devices == live_reports(states@.take(i as int), user, now),
            devices <= i,
            match best {
                Some(k) => k < i && best_report(states@.take(i as int), user, now) == Some(
                    states@[k as int],
                ),
                None => best_report(states@.take(i as int), user, now) is None,
            },
        decreases states.len() - i,
    {
        proof {
            assert(states@.take(i as int + 1).drop_last() =~= states@.take(i as int));
            assert(states@.take(i as int + 1).last() == states@[i as int]);
        }
        let s = &states[i];
        if s.user_id == user && s.expires_at > now {
            devices = devices + 1;
            match best {
                None => {
                    best = Some(i);
                },
                Some(k) => {
                    let b = &states[k];
                    let rank_s = rank_of(s.status.as_str());
                    let rank_b = rank_of(b.status.as_str());
                    if rank_s > rank_b || (rank_s == rank_b && s.last_active > b.last_active) {
                        best = Some(i);
                    }
                },
            }
        }
        i = i + 1;
    }
    proof {
        assert(states@.take(states@.len() as int) =~= states@);
    }
    match best {
        Some(k) => UserPresence {
            status: states[k].status.clone(),
            last_active: states[k].last_active,
            custom_status: copy_optional_text(&states[k].custom_status),
            devices,
        },
        None => UserPresence {
            status: "offline".to_owned(),
            last_active: 0,
            custom_status: None,
            devices: 0,
        },
    }
}

/// Drops the reports that are no longer good at `now`; where `only` names
/// a user, those of other users are left alone.
pub fn retain_live(states: &mut Vec<PresenceState>, only: Option<u128>, now: i64)
    ensures
        final(states)@ == kept_reports(old(states)@, only, now),
{
    let mut kept: Vec<PresenceState> = Vec::new();
    let mut i: usize = 0;
    proof {
        assert(states@.take(0) =~= Seq::empty());
    }
    while i < states.len()
        invariant
            i <= states.len(),
            *states == *old(states),
            kept@ == kept_reports(states@.take(i as int), only, now),
        decreases states.len() - i,
    {
        proof {
            assert(states@.take(i as int + 1).drop_last() =~= states@.take(i as int));
        }
        let other_user = match only {
            Some(u) => u != states[i].user_id,
            None => false,
        };
        if states[i].expires_at > now || other_user {
            kept.push(states[i].clone());
        }
        i = i + 1;
    }
    proof {
        assert(states@.take(states@.len() as int) =~= states@);
    }
    *states = kept;
}

/// What is known of the presence of all users.
#[derive(Debug)]
pub struct PresenceTable {
    states: Vec<PresenceState>,
}

/// What a device reports.
#[derive(Debug)]
pub struct UpdatePresenceRequest {
    pub user_id: String,
    pub status: String,
    pub device_id: String,
    pub ip_address: Option<String>,
    pub user_agent: Option<String>,
    pub custom_status: Option<String>,
}

impl PresenceTable {
    /// The reports that the table holds.
    pub closed spec fn reports(&self) -> Seq<PresenceState> {
        self.states@
    }

    /// A table without reports.
    pub fn new() -> (table: PresenceTable)
        ensures
            table.reports().len() == 0,
    {
        PresenceTable { states: Vec::new() }
    }

    /// Number of reports in the table.
    pub fn len(&self) -> (n: usize)
        ensures
            n == self.reports().len(),
    {
        self.states.len()
    }

    fn find(&self, user: u128, device: &String) -> (k: usize)
        ensures
            k == report_index(self.reports(), user, device@),
            k <= self.reports().len(),
    {
        let mut i: usize = 0;
        proof {
            assert(self.states@.skip(0) =~= self.states@);
        }
        while i < self.states.len()
            invariant
                i <= self.states.len(),
                report_index(self.states@, user, device@) == i + report_index(
                    self.states@.skip(i as int),
                    user,
                    device@,
                ),
            decreases self.states.len() - i,
        {
            assert(self.states@.skip(i as int)[0] == self.states@[i as int]);
            if self.states[i].user_id == user && self.states[i].device_id == *device {
                return i;
            }
            proof {
                assert(self.states@.skip(i as int).skip(1) =~= self.states@.skip(i as int + 1));
            }
            i = i + 1;
        }
        i
    }

    /// Takes in the report of a device at `now`. The report is good for
    /// five minutes. Reports of the same user that are no longer good are
    /// dropped. Returns the event to publish and where, or a refusal where
    /// the end of the report's life cannot be represented.
    pub fn update_presence(
        &mut self,
        user_id: u128,
        status: String,
        device_id: String,
        ip_address: Option<String>,
        user_agent: Option<String>,
        custom_status: Option<String>,
        now: i64,
    ) -> (result: Result<(PresenceEvent, Route), ErrorKind>)
        ensures
            result is Ok <==> now + PRESENCE_TTL_SECS <= i64::MAX,
            result matches Err(e) ==> e == ErrorKind::Validation && final(self).reports() == old(
                self,
            ).reports(),
            result matches Ok(out) ==> {
                let report = PresenceState {
                    user_id,
                    status,
                    device_id,
                    ip_address,
                    user_agent,
                    custom_status,
                    last_active: now,
                    expires_at: (now + PRESENCE_TTL_SECS) as i64,
                };
                &&& final(self).reports() == kept_reports(
                    with_report(old(self).reports(), report),
                    Some(user_id),
                    now,
                )
                &&& out.0.user_id == user_id
                &&& out.0.status == status
                &&& out.0.device_id == device_id
                &&& out.0.timestamp == now
                &&& out.0.custom_status == custom_status
                &&& out.1 == (Route { topic: Topic::PresenceEvents, key: user_id })
            },
    {
        if now > i64::MAX - PRESENCE_TTL_SECS {
            return Err(ErrorKind::Validation);
        }
        let expires_at = now + PRESENCE_TTL_SECS;
        let event = PresenceEvent {
            user_id,
            status: status.clone(),
            device_id: device_id.clone(),
            timestamp: now,
            custom_status: copy_optional_text(&custom_status),
        };
        let k = self.find(user_id, &device_id);
        let ghost report = PresenceState {
            user_id,
            status,
            device_id,
            ip_address,
            user_agent,
            custom_status,
            last_active: now,
            expires_at,
        };
        let ghost before = self.states@;
        if k < self.states.len() {
            self.states[k].status = status;
            self.states[k].custom_status = custom_status;
            self.states[k].last_active = now;
            self.states[k].expires_at = expires_at;
        } else {
            self.states.push(
                PresenceState {
                    user_id,
                    status,
                    device_id,
                    ip_address,
                    user_agent,
                    custom_status,
                    last_active: now,
                    expires_at,
                },
            );
        }
        proof {
            assert(self.states@ =~= with_report(before, report));
        }
        retain_live(&mut self.states, Some(user_id), now);
        Ok((event, Route { topic: Topic::PresenceEvents, key: user_id }))
    }

    /// What `user` counts as at `now`.
    pub fn get_presence(&self, user: u128, now: i64) -> (presence: UserPresence)
        ensures
            is_aggregate(presence, self.reports(), user, now),
    {
        aggregate_presence(&self.states, user, now)
    }

    /// Whether `user` is online at `now`: whether any device of the user
    /// has a live report.
    pub fn is_online(&self, user: u128, now: i64) -> (online: bool)
        ensures
            online == (live_reports(self.reports(), user, now) > 0),
    {
        let presence = aggregate_presence(&self.states, user, now);
        proof {
            lemma_best_report(self.states@, user, now);
        }
        presence.devices > 0
    }

    /// Drops every report that is no longer good at `now`.
    pub fn cleanup(&mut self, now: i64)
        ensures
            final(self).reports() == kept_reports(old(self).reports(), None, now),
    {
        retain_live(&mut self.states, None, now);
    }
}

/// What a request to report presence is answered as far as its user id
/// decides it: a text that is no identifier is refused.
pub fn validate_user_id(parsed: Option<u128>) -> (result: Result<u128, ErrorKind>)
    ensures
        result == match parsed {
            Some(id) => Ok::<u128, ErrorKind>(id),
            None => Err::<u128, ErrorKind>(ErrorKind::Validation),
        },
{
    match parsed {
        Some(id) => Ok(id),
        None => Err(ErrorKind::Validation),
    }
}

/// Takes in the report of a device as it came over the wire.
pub fn update_presence(table: &mut PresenceTable, request: UpdatePresenceRequest, now: i64) -> (result:
    Result<(PresenceEvent, Route), ErrorKind>)
    ensures
        result is Ok <==> uuid_parsed(request.user_id@) is Some && now + PRESENCE_TTL_SECS
            <= i64::MAX,
        result matches Err(e) ==> e == ErrorKind::Validation && final(table).reports() == old(
            table,
        ).reports(),
        result matches Ok(out) ==> {
            let user_id = uuid_parsed(request.user_id@)->0;
            let report = PresenceState {
                user_id,
                status: request.status,
                device_id: request.device_id,
                ip_address: request.ip_address,
                user_agent: request.user_agent,
                custom_status: request.custom_status,
                last_active: now,
                expires_at: (now + PRESENCE_TTL_SECS) as i64,
            };
            &&& final(table).reports() == kept_reports(
                with_report(old(table).reports(), report),
                Some(user_id),
                now,
            )
            &&& out.0.user_id == user_id
            &&& out.0.status == request.status
            &&& out.0.device_id == request.device_id
            &&& out.0.custom_status == request.custom_status
            &&& out.0.timestamp == now
            &&& out.1 == (Route { topic: Topic::PresenceEvents, key: user_id })
        },
{
    let user_id = match validate_user_id(crate::ids::parse_id(request.user_id.as_str())) {
        Ok(id) => id,
        Err(e) => {
            return Err(e);
        },
    };
    table.update_presence(
        user_id,
        request.status,
        request.device_id,
        request.ip_address,
        request.user_agent,
        request.custom_status,
        now,
    )
}

/// The friends among `friends` who count as online, in their order.
pub open spec fn online_only(friends: Seq<(u128, UserPresence)>) -> Seq<FriendPresence>
    decreases friends.len(),
{
    if friends.len() == 0 {
        Seq::empty()
    } else {
        let before = online_only(friends.drop_last());
        let (id, p) = friends.last();
        if p.status@ == "online"@ {
            before.push(
                FriendPresence {
                    user_id: id,
                    status: p.status,
                    last_active: p.last_active,
                    custom_status: p.custom_status,
                },
            )
        } else {
            before
        }
    }
}

/// Picks the friends who count as online.
pub fn get_online_friends(friends: Vec<(u128, UserPresence)>) -> (online: Vec<FriendPresence>)
    ensures
        online@ == online_only(friends@),
{
    let mut online: Vec<FriendPresence> = Vec::new();
    let mut i: usize = 0;
    proof {
        assert(friends@.take(0) =~= Seq::empty());
    }
    while i < friends.len()
        invariant
            i <= friends.len(),
            online@ == online_only(friends@.take(i as int)),
        decreases friends.len() - i,
    {
        proof {
            assert(friends@.take(i as int + 1).drop_last() =~= friends@.take(i as int));
        }
        if same_text(friends[i].1.status.as_str(), "online") {
            online.push(
                FriendPresence {
                    user_id: friends[i].0,
                    status: friends[i].1.status.clone(),
                    last_active: friends[i].1.last_active,
                    custom_status: copy_optional_text(&friends[i].1.custom_status),
                },
            );
        }
        i = i + 1;
    }
    proof {
        assert(friends@.take(friends@.len() as int) =~= friends@);
    }
    online
}

/// Number of `true` among `outcomes`.
pub open spec fn count_true(outcomes: Seq<bool>) -> nat
    decreases outcomes.len(),
{
    if outcomes.len() == 0 {
        0
    } else {
        count_true(outcomes.drop_last()) + if outcomes.last() {
            1nat
        } else {
            0nat
        }
    }
}

/// Counts how many of a batch of updates succeeded and how many failed.
pub fn bulk_presence_update(outcomes: &Vec<bool>) -> (tally: (usize, usize))
    ensures
        tally.0 == count_true(outcomes@),
        tally.0 + tally.1 == outcomes@.len(),
{
    let mut successes: usize = 0;
    let mut failures: usize = 0;
    let mut i: usize = 0;
    proof {
        assert(outcomes@.take(0) =~= Seq::empty());
    }
    while i < outcomes.len()
        invariant
            i <= outcomes.len(),
            successes == count_true(outcomes@.take(i as int)),
            successes + failures == i,
        decreases outcomes.len() - i,
    {
        proof {
            assert(outcomes@.take(i as int + 1).drop_last() =~= outcomes@.take(i as int));
        }
        if outcomes[i] {
            successes = successes + 1;
        } else {
            failures = failures + 1;
        }
        i = i + 1;
    }
    proof {
        assert(outcomes@.take(outcomes@.len() as int) =~= outcomes@);
    }
    (successes, failures)
}

} // verus!
