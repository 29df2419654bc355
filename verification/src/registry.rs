//! The connection registry of a gateway: which devices of which users are
//! connected right now.
//!
//! The registry is the only owner of connections. It lives in one gateway
//! and is never shared between gateways: what one gateway accepts reaches
//! the devices of another through the bus.

use vstd::prelude::*;
use dashmap::DashMap;

verus! {

/// Seconds between two heartbeats of a client, and between two sweeps.
pub const HEARTBEAT_INTERVAL_SECS: i64 = 30;

/// Seconds without a heartbeat after which a connection is dropped.
pub const HEARTBEAT_TIMEOUT_SECS: i64 = 60;

/// Number of frames that may wait in a connection's outbound channel.
pub const OUTBOUND_CAPACITY: usize = 256;

/// A live connection of one device. The frames for it go through the
/// channel that the handle names.
#[derive(Debug)]
pub struct Connection {
    pub user_id: u128,
    pub device_id: String,
    /// Instant of the last heartbeat, in seconds.
    pub last_heartbeat: i64,
    /// Names the outbound channel of the connection.
    pub channel: u64,
}

impl Clone for Connection {
    fn clone(&self) -> (copy: Self)
        ensures
            copy == *self,
    {
        Connection {
            user_id: self.user_id,
            device_id: self.device_id.clone(),
            last_heartbeat: self.last_heartbeat,
            channel: self.channel,
        }
    }
}

impl Connection {
    /// Whether the connection has been silent for too long at `now`.
    pub open spec fn is_stale(self, now: i64) -> bool {
        now - self.last_heartbeat >= HEARTBEAT_TIMEOUT_SECS
    }

    /// Whether the connection has been silent for too long at `now`.
    pub fn stale(&self, now: i64) -> (stale: bool)
        ensures
            stale == self.is_stale(now),
    {
        if now >= self.last_heartbeat {
            match now.checked_sub(self.last_heartbeat) {
                Some(d) => d >= HEARTBEAT_TIMEOUT_SECS,
                None => true,
            }
        } else {
            false
        }
    }
}

/// `dashmap::DashMap`, the concurrent map that holds the connections. What
/// is inside it is known through `registry_entries` alone.
#[verifier::external_type_specification]
#[verifier::external_body]
#[verifier::reject_recursive_types(K)]
#[verifier::reject_recursive_types(V)]
#[verifier::reject_recursive_types(S)]
pub struct ExDashMap<K, V, S>(DashMap<K, V, S>);

/// What a concurrent map of connections holds: for every user with an entry,
/// the connections of that entry in their order.
pub uninterp spec fn registry_entries(m: DashMap<u128, Vec<Connection>>) -> Map<
    u128,
    Seq<Connection>,
>;

/// `DashMap::new`: a map without entries.
#[verifier::external_body]
fn map_new() -> (m: DashMap<u128, Vec<Connection>>)
    ensures
        registry_entries(m) =~= Map::empty(),
{
    DashMap::new()
}

/// `DashMap::get`: a copy of the value under `key`, if the map has the key.
#[verifier::external_body]
fn map_get(m: &DashMap<u128, Vec<Connection>>, key: u128) -> (value: Option<Vec<Connection>>)
    ensures
        value is Some <==> registry_entries(*m).contains_key(key),
        value matches Some(v) ==> v@ == registry_entries(*m)[key],
{
    m.get(&key).map(|entry| entry.value().clone())
}

/// `DashMap::insert`: afterwards the map has `value` under `key` and is
/// otherwise as before.
#[verifier::external_body]
fn map_insert(m: &mut DashMap<u128, Vec<Connection>>, key: u128, value: Vec<Connection>)
    ensures
        registry_entries(*final(m)) == registry_entries(*old(m)).insert(key, value@),
{
    m.insert(key, value);
}

/// `DashMap::remove`: afterwards the map has nothing under `key` and is
/// otherwise as before.
#[verifier::external_body]
fn map_remove(m: &mut DashMap<u128, Vec<Connection>>, key: u128)
    ensures
        registry_entries(*final(m)) == registry_entries(*old(m)).remove(key),
{
    m.remove(&key);
}

/// `DashMap::iter`: the keys of the map, each once, in no particular order.
#[verifier::external_body]
fn map_keys(m: &DashMap<u128, Vec<Connection>>) -> (keys: Vec<u128>)
    ensures
        keys@.no_duplicates(),
        forall|k: u128| keys@.contains(k) <==> registry_entries(*m).contains_key(k),
{
    m.iter().map(|entry| *entry.key()).collect()
}

/// The connections of `conns` that are not stale at `now`, in their order.
pub open spec fn live_only(conns: Seq<Connection>, now: i64) -> Seq<Connection>
    decreases conns.len(),
{
    if conns.len() == 0 {
        Seq::empty()
    } else if conns.last().is_stale(now) {
        live_only(conns.drop_last(), now)
    } else {
        live_only(conns.drop_last(), now).push(conns.last())
    }
}

/// The connections of `conns` that are stale at `now`, in their order.
pub open spec fn stale_only(conns: Seq<Connection>, now: i64) -> Seq<Connection>
    decreases conns.len(),
{
    if conns.len() == 0 {
        Seq::empty()
    } else if conns.last().is_stale(now) {
        stale_only(conns.drop_last(), now).push(conns.last())
    } else {
        stale_only(conns.drop_last(), now)
    }
}

/// The place in `conns` of the connection of `device`; the length of
/// `conns` where there is none.
pub open spec fn device_index(conns: Seq<Connection>, device: Seq<char>) -> int
    decreases conns.len(),
{
    if conns.len() == 0 {
        0
    } else if conns[0].device_id@ == device {
        0
    } else {
        1 + device_index(conns.skip(1), device)
    }
}

/// The registry as mathematical values: the connections of every user who
/// has any.
pub struct RegistryView {
    pub entries: Map<u128, Seq<Connection>>,
}

impl RegistryView {
    /// The connections of `user`.
    pub open spec fn of(self, user: u128) -> Seq<Connection> {
        if self.entries.contains_key(user) {
            self.entries[user]
        } else {
            Seq::empty()
        }
    }

    /// Whether `c` is one of the registry's connections.
    pub open spec fn holds(self, c: Connection) -> bool {
        self.of(c.user_id).contains(c)
    }

    /// The registry's invariant: nobody has an empty entry, every
    /// connection stands under its user, and a user has at most one
    /// connection per device.
    pub open spec fn valid(self) -> bool {
        forall|user: u128| #[trigger]
            self.entries.contains_key(user) ==> {
                let conns = self.entries[user];
                &&& conns.len() > 0
                &&& forall|i: int| 0 <= i < conns.len() ==> (#[trigger] conns[i]).user_id == user
                &&& forall|i: int, j: int|
                    0 <= i < j < conns.len() ==> conns[i].device_id@ != conns[j].device_id@
            }
    }

    /// The registry with the connections of `user` set to `conns`. A user
    /// without connections has no entry.
    pub open spec fn with(self, user: u128, conns: Seq<Connection>) -> RegistryView {
        if conns.len() == 0 {
            RegistryView { entries: self.entries.remove(user) }
        } else {
            RegistryView { entries: self.entries.insert(user, conns) }
        }
    }

    /// The connections of the user of `c` after `c` has connected: whatever
    /// connection the device had is gone, and `c` stands at the end.
    pub open spec fn connected(self, c: Connection) -> Seq<Connection> {
        let conns = self.of(c.user_id);
        let k = device_index(conns, c.device_id@);
        if k < conns.len() {
            conns.remove(k).push(c)
        } else {
            conns.push(c)
        }
    }

    /// The connection that `c` displaces when it connects, if any.
    pub open spec fn displaced_by(self, c: Connection) -> Option<Connection> {
        let conns = self.of(c.user_id);
        let k = device_index(conns, c.device_id@);
        if k < conns.len() {
            Some(conns[k])
        } else {
            None
        }
    }

    /// The connections of `user` after the connection of `device` that
    /// goes through `channel` has ended. A connection of the device that
    /// goes through another channel stays.
    pub open spec fn disconnected(self, user: u128, device: Seq<char>, channel: u64) -> Seq<
        Connection,
    > {
        let conns = self.of(user);
        let k = device_index(conns, device);
        if k < conns.len() && conns[k].channel == channel {
            conns.remove(k)
        } else {
            conns
        }
    }

    /// The connections of `user` after a heartbeat of `device` at `now`.
    pub open spec fn beaten(self, user: u128, device: Seq<char>, now: i64) -> Seq<Connection> {
        let conns = self.of(user);
        let k = device_index(conns, device);
        if k < conns.len() {
            conns.update(k, Connection { last_heartbeat: now, ..conns[k] })
        } else {
            conns
        }
    }

    /// Whether `user` has a connection of `device`.
    pub open spec fn has_device(self, user: u128, device: Seq<char>) -> bool {
        device_index(self.of(user), device) < self.of(user).len()
    }

    /// The registry after the sweep at `now`: every stale connection is
    /// gone.
    pub open spec fn swept(self, now: i64) -> RegistryView {
        RegistryView {
            entries: Map::new(
                |user: u128|
                    self.entries.contains_key(user) && live_only(self.entries[user], now).len()
                        > 0,
                |user: u128| live_only(self.entries[user], now),
            ),
        }
    }

    /// The connections to which a frame of `sender` for `members` goes: all
    /// connections of every member but the sender, member by member.
    pub open spec fn targets(self, members: Seq<u128>, sender: u128) -> Seq<Connection>
        decreases members.len(),
    {
        if members.len() == 0 {
            Seq::empty()
        } else {
            let before = self.targets(members.drop_last(), sender);
            if members.last() == sender {
                before
            } else {
                before + self.of(members.last())
            }
        }
    }
}

/// The place of a device is within bounds and is the first with that device.
pub proof fn lemma_device_index(conns: Seq<Connection>, device: Seq<char>)
    ensures
        0 <= device_index(conns, device) <= conns.len(),
        device_index(conns, device) < conns.len() ==> conns[device_index(
            conns,
            device,
        )].device_id@ == device,
        forall|j: int| 0 <= j < device_index(conns, device) ==> conns[j].device_id@ != device,
    decreases conns.len(),
{
    if conns.len() > 0 && conns[0].device_id@ != device {
        lemma_device_index(conns.skip(1), device);
        let k = device_index(conns.skip(1), device);
        assert forall|j: int| 0 <= j < 1 + k implies conns[j].device_id@ != device by {
            if j > 0 {
                assert(conns.skip(1)[j - 1] == conns[j]);
            }
        }
        if k < conns.skip(1).len() {
            assert(conns.skip(1)[k] == conns[k + 1]);
        }
    }
}

/// A sequence with one more element holds what it held before and that
/// element.
pub proof fn lemma_push_contains(q: Seq<Connection>, x: Connection, c: Connection)
    ensures
        q.push(x).contains(c) <==> q.contains(c) || c == x,
{
    if q.contains(c) {
        let i = choose|i: int| 0 <= i < q.len() && q[i] == c;
        assert(q.push(x)[i] == c);
    }
    if c == x {
        assert(q.push(x)[q.len() as int] == c);
    }
    if q.push(x).contains(c) {
        let i = choose|i: int| 0 <= i < q.push(x).len() && q.push(x)[i] == c;
        if i < q.len() {
            assert(q[i] == c);
        }
    }
}

/// Two sequences in a row hold what either of them holds.
pub proof fn lemma_concat_contains(p: Seq<Connection>, q: Seq<Connection>, c: Connection)
    ensures
        (p + q).contains(c) <==> p.contains(c) || q.contains(c),
{
    if p.contains(c) {
        let i = choose|i: int| 0 <= i < p.len() && p[i] == c;
        assert((p + q)[i] == c);
    }
    if q.contains(c) {
        let i = choose|i: int| 0 <= i < q.len() && q[i] == c;
        assert((p + q)[p.len() + i] == c);
    }
    if (p + q).contains(c) {
        let i = choose|i: int| 0 <= i < (p + q).len() && (p + q)[i] == c;
        if i < p.len() {
            assert(p[i] == c);
        } else {
            assert(q[i - p.len()] == c);
        }
    }
}

/// The live connections are those that were there and are not stale; the
/// stale ones are those that were there and are stale.
pub proof fn lemma_live_only(conns: Seq<Connection>, now: i64, c: Connection)
    ensures
        live_only(conns, now).contains(c) <==> conns.contains(c) && !c.is_stale(now),
        stale_only(conns, now).contains(c) <==> conns.contains(c) && c.is_stale(now),
    decreases conns.len(),
{
    if conns.len() > 0 {
        let rest = conns.drop_last();
        let last = conns.last();
        lemma_live_only(rest, now, c);
        assert(rest.push(last) =~= conns);
        lemma_push_contains(rest, last, c);
        lemma_push_contains(live_only(rest, now), last, c);
        lemma_push_contains(stale_only(rest, now), last, c);
    }
}

/// The first `i + 1` keys hold what the first `i` hold and the key at `i`.
pub proof fn lemma_take_next_contains(keys: Seq<u128>, i: int, k: u128)
    requires
        0 <= i < keys.len(),
    ensures
        keys.take(i + 1).contains(k) <==> keys.take(i).contains(k) || keys[i] == k,
        keys.no_duplicates() ==> !keys.take(i).contains(keys[i]),
{
    let a = keys.take(i);
    let b = keys.take(i + 1);
    if a.contains(k) {
        let j = choose|j: int| 0 <= j < a.len() && a[j] == k;
        assert(b[j] == k);
    }
    if keys[i] == k {
        assert(b[i] == k);
    }
    if b.contains(k) {
        let j = choose|j: int| 0 <= j < b.len() && b[j] == k;
        if j < i {
            assert(a[j] == k);
        }
    }
    if keys.no_duplicates() && a.contains(keys[i]) {
        let j = choose|j: int| 0 <= j < a.len() && a[j] == keys[i];
        assert(keys[j] == keys[i]);
    }
}

/// The place in `conns` of the connection that stands at place `i` among
/// the live ones.
pub open spec fn live_origin(conns: Seq<Connection>, now: i64, i: int) -> int
    decreases conns.len(),
{
    if conns.len() == 0 {
        0
    } else if !conns.last().is_stale(now) && i == live_only(conns.drop_last(), now).len() {
        conns.len() - 1
    } else {
        live_origin(conns.drop_last(), now, i)
    }
}

/// The live connections stand in the order in which they stood before.
pub proof fn lemma_live_origin(conns: Seq<Connection>, now: i64, i: int, j: int)
    requires
        0 <= i <= j < live_only(conns, now).len(),
    ensures
        0 <= live_origin(conns, now, i) <= live_origin(conns, now, j) < conns.len(),
        i < j ==> live_origin(conns, now, i) < live_origin(conns, now, j),
        conns[live_origin(conns, now, i)] == live_only(conns, now)[i],
        conns[live_origin(conns, now, j)] == live_only(conns, now)[j],
    decreases conns.len(),
{
    let rest = conns.drop_last();
    let lr = live_only(rest, now);
    if !conns.last().is_stale(now) && j == lr.len() {
        if i < j {
            lemma_live_origin(rest, now, i, i);
        }
    } else {
        lemma_live_origin(rest, now, i, j);
    }
}

/// Where no two connections belong to one device, no two live ones do.
pub proof fn lemma_live_devices_distinct(conns: Seq<Connection>, now: i64)
    requires
        forall|i: int, j: int|
            0 <= i < j < conns.len() ==> conns[i].device_id@ != conns[j].device_id@,
    ensures
        forall|i: int, j: int|
            0 <= i < j < live_only(conns, now).len() ==> live_only(conns, now)[i].device_id@
                != live_only(conns, now)[j].device_id@,
{
    let live = live_only(conns, now);
    assert forall|i: int, j: int| 0 <= i < j < live.len() implies live[i].device_id@
        != live[j].device_id@ by {
        lemma_live_origin(conns, now, i, j);
        let a = live_origin(conns, now, i);
        let b = live_origin(conns, now, j);
        assert(conns[a].device_id@ != conns[b].device_id@);
    }
}

/// A failure stays with its connection. When the connection of a device
/// leaves the registry, every connection of another user or device stays.
pub proof fn lemma_disconnect_is_isolated(
    r: RegistryView,
    user: u128,
    device: Seq<char>,
    channel: u64,
    other: Connection,
)
    requires
        r.valid(),
        r.holds(other),
        other.user_id != user || other.device_id@ != device,
    ensures
        r.with(user, r.disconnected(user, device, channel)).holds(other),
{
    let after = r.with(user, r.disconnected(user, device, channel));
    if other.user_id == user {
        let conns = r.of(user);
        let k = device_index(conns, device);
        lemma_device_index(conns, device);
        let i = choose|i: int| 0 <= i < conns.len() && conns[i] == other;
        if k < conns.len() && conns[k].channel == channel {
            assert(i != k);
            let rest = conns.remove(k);
            let j = if i < k { i } else { i - 1 };
            assert(rest[j] == other);
            assert(after.of(user) == rest);
        } else {
            assert(conns[i] == other);
            assert(after.of(user) =~= conns);
        }
    } else {
        assert(r.entries.contains_key(other.user_id));
        assert(after.of(other.user_id) == r.of(other.user_id));
    }
}

/// No echo, and nothing for strangers. Whoever is delivered a frame is a
/// member other than the sender, and the connection is one that the
/// registry holds.
pub proof fn lemma_targets_are_members(
    r: RegistryView,
    members: Seq<u128>,
    sender: u128,
    c: Connection,
)
    requires
        r.valid(),
        r.targets(members, sender).contains(c),
    ensures
        c.user_id != sender,
        members.contains(c.user_id),
        r.holds(c),
    decreases members.len(),
{
    let before = r.targets(members.drop_last(), sender);
    let last = members.last();
    if last != sender {
        lemma_concat_contains(before, r.of(last), c);
    }
    if before.contains(c) {
        lemma_targets_are_members(r, members.drop_last(), sender, c);
        let i = choose|i: int| 0 <= i < members.drop_last().len() && members.drop_last()[i]
            == c.user_id;
        assert(members[i] == c.user_id);
    } else {
        assert(r.of(last).contains(c));
        assert(r.entries.contains_key(last));
        let k = choose|k: int| 0 <= k < r.of(last).len() && r.of(last)[k] == c;
        assert(r.entries[last][k].user_id == last);
        assert(members[members.len() - 1] == last);
    }
}

/// Every live connection of every member but the sender is delivered to.
pub proof fn lemma_members_are_targets(
    r: RegistryView,
    members: Seq<u128>,
    sender: u128,
    c: Connection,
)
    requires
        r.holds(c),
        members.contains(c.user_id),
        c.user_id != sender,
    ensures
        r.targets(members, sender).contains(c),
    decreases members.len(),
{
    let before = r.targets(members.drop_last(), sender);
    let last = members.last();
    if last != sender {
        lemma_concat_contains(before, r.of(last), c);
    }
    if last != c.user_id {
        let i = choose|i: int| 0 <= i < members.len() && members[i] == c.user_id;
        assert(members.drop_last()[i] == c.user_id);
        lemma_members_are_targets(r, members.drop_last(), sender, c);
    }
}

/// Whether the entry of `k` is as it should be in the middle of a sweep:
/// swept where the sweep has been at it, untouched elsewhere.
pub open spec fn sweep_entry_ok(
    start: RegistryView,
    cur: RegistryView,
    done: Seq<u128>,
    now: i64,
    k: u128,
) -> bool {
    if done.contains(k) && start.entries.contains_key(k) {
        if live_only(start.entries[k], now).len() > 0 {
            cur.entries.contains_key(k) && cur.entries[k] == live_only(start.entries[k], now)
        } else {
            !cur.entries.contains_key(k)
        }
    } else {
        cur.entries.contains_key(k) == start.entries.contains_key(k) && (
        cur.entries.contains_key(k) ==> cur.entries[k] == start.entries[k])
    }
}

/// Whether `c` is rightly in or out of what has been collected so far: in
/// are the connections of the users in `done` (the stale ones only, where
/// `stale_only` is set).
pub open spec fn collected_ok(
    start: RegistryView,
    collected: Seq<Connection>,
    done: Seq<u128>,
    now: i64,
    stale_only: bool,
    c: Connection,
) -> bool {
    collected.contains(c) <==> done.contains(c.user_id) && start.holds(c) && (stale_only
        ==> c.is_stale(now))
}

/// Whether the entry of `k` is as it should be in the middle of a drain:
/// gone where the drain has been at it, untouched elsewhere.
pub open spec fn drain_entry_ok(start: RegistryView, cur: RegistryView, done: Seq<u128>, k: u128)
    -> bool {
    if done.contains(k) {
        !cur.entries.contains_key(k)
    } else {
        cur.entries.contains_key(k) == start.entries.contains_key(k) && (
        cur.entries.contains_key(k) ==> cur.entries[k] == start.entries[k])
    }
}

/// Setting the connections of a user keeps the registry's invariant, as long
/// as they stand under the user and no two belong to one device.
pub proof fn lemma_with_valid(r: RegistryView, user: u128, conns: Seq<Connection>)
    requires
        r.valid(),
        forall|i: int| 0 <= i < conns.len() ==> (#[trigger] conns[i]).user_id == user,
        forall|i: int, j: int|
            0 <= i < j < conns.len() ==> conns[i].device_id@ != conns[j].device_id@,
    ensures
        r.with(user, conns).valid(),
{
    let t = r.with(user, conns);
    assert forall|u: u128| #[trigger] t.entries.contains_key(u) implies ({
        let cs = t.entries[u];
        &&& cs.len() > 0
        &&& forall|i: int| 0 <= i < cs.len() ==> (#[trigger] cs[i]).user_id == u
        &&& forall|i: int, j: int| 0 <= i < j < cs.len() ==> cs[i].device_id@ != cs[j].device_id@
    }) by {
        if u != user {
            assert(r.entries.contains_key(u));
        }
    }
}

/// Finds the place of the connection of `device`.
pub fn find_device(conns: &Vec<Connection>, device: &String) -> (k: usize)
    ensures
        k == device_index(conns@, device@),
        k <= conns@.len(),
{
    let mut i: usize = 0;
    proof {
        assert(conns@.skip(0) =~= conns@);
    }
    while i < conns.len()
        invariant
            i <= conns.len(),
            device_index(conns@, device@) == i + device_index(conns@.skip(i as int), device@),
        decreases conns.len() - i,
    {
        assert(conns@.skip(i as int)[0] == conns@[i as int]);
        if conns[i].device_id == *device {
            return i;
        }
        proof {
            assert(conns@.skip(i as int).skip(1) =~= conns@.skip(i as int + 1));
        }
        i = i + 1;
    }
    proof {
        assert(conns@.skip(i as int).len() == 0);
    }
    i
}

/// Parts the connections into those that are live at `now` and those that
/// are stale, each part in the old order.
pub fn split_stale(conns: &Vec<Connection>, now: i64) -> (parts: (Vec<Connection>, Vec<Connection>))
    ensures
        parts.0@ == live_only(conns@, now),
        parts.1@ == stale_only(conns@, now),
{
    let mut live: Vec<Connection> = Vec::new();
    let mut stale: Vec<Connection> = Vec::new();
    let mut i: usize = 0;
    proof {
        assert(conns@.take(0) =~= Seq::empty());
    }
    while i < conns.len()
        invariant
            i <= conns.len(),
            live@ == live_only(conns@.take(i as int), now),
            stale@ == stale_only(conns@.take(i as int), now),
        decreases conns.len() - i,
    {
        proof {
            assert(conns@.take(i as int + 1).drop_last() =~= conns@.take(i as int));
        }
        if conns[i].stale(now) {
            stale.push(conns[i].clone());
        } else {
            live.push(conns[i].clone());
        }
        i = i + 1;
    }
    proof {
        assert(conns@.take(conns@.len() as int) =~= conns@);
    }
    (live, stale)
}

/// The connection registry.
pub struct ConnectionRegistry {
    map: DashMap<u128, Vec<Connection>>,
}

impl View for ConnectionRegistry {
    type V = RegistryView;

    closed spec fn view(&self) -> RegistryView {
        RegistryView { entries: registry_entries(self.map) }
    }
}

impl ConnectionRegistry {
    /// Whether the registry's invariant holds.
    pub open spec fn wf(&self) -> bool {
        self@.valid()
    }

    /// A registry without connections.
    pub fn new() -> (r: ConnectionRegistry)
        ensures
            r.wf(),
            r@.entries =~= Map::empty(),
    {
        ConnectionRegistry { map: map_new() }
    }

    /// The connections of `user`, in the order in which they were made.
    pub fn connections_of(&self, user: u128) -> (conns: Vec<Connection>)
        ensures
            conns@ == self@.of(user),
    {
        match map_get(&self.map, user) {
            Some(conns) => conns,
            None => Vec::new(),
        }
    }

    /// Whether `user` has any connection.
    pub fn is_online(&self, user: u128) -> (online: bool)
        requires
            self.wf(),
        ensures
            online == self@.entries.contains_key(user),
            online == (self@.of(user).len() > 0),
    {
        map_get(&self.map, user).is_some()
    }

    fn put(&mut self, user: u128, conns: Vec<Connection>)
        requires
            old(self).wf(),
            forall|i: int| 0 <= i < conns@.len() ==> (#[trigger] conns@[i]).user_id == user,
            forall|i: int, j: int|
                0 <= i < j < conns@.len() ==> conns@[i].device_id@ != conns@[j].device_id@,
        ensures
            final(self).wf(),
            final(self)@ == old(self)@.with(user, conns@),
    {
        proof {
            lemma_with_valid(self@, user, conns@);
        }
        if conns.len() == 0 {
            map_remove(&mut self.map, user);
        } else {
            map_insert(&mut self.map, user, conns);
        }
    }

    /// Takes a new connection in. Where the device had a connection
    /// already, the new one displaces it: the old one leaves the registry
    /// and is handed back to be closed.
    pub fn register(&mut self, connection: Connection) -> (displaced: Option<Connection>)
        requires
            old(self).wf(),
        ensures
            final(self).wf(),
            final(self)@ == old(self)@.with(connection.user_id, old(self)@.connected(connection)),
            displaced == old(self)@.displaced_by(connection),
            final(self)@.holds(connection),
    {
        let user = connection.user_id;
        let mut conns = self.connections_of(user);
        let k = find_device(&conns, &connection.device_id);
        let ghost before = conns@;
        proof {
            lemma_device_index(before, connection.device_id@);
            assert(self@.entries.contains_key(user) || before.len() == 0);
        }
        let displaced = if k < conns.len() {
            Some(conns.remove(k))
        } else {
            None
        };
        conns.push(connection);
        proof {
            let after = conns@;
            assert(after == self@.connected(connection));
            assert forall|i: int| 0 <= i < after.len() implies (#[trigger] after[i]).user_id
                == user by {
                if i < after.len() - 1 {
                    let o = if k < before.len() && i >= k { i + 1 } else { i };
                    assert(after[i] == before[o]);
                }
            }
            assert forall|i: int, j: int| 0 <= i < j < after.len() implies after[i].device_id@
                != after[j].device_id@ by {
                let oi = if k < before.len() && i >= k { i + 1 } else { i };
                assert(after[i] == before[oi]);
                if j < after.len() - 1 {
                    let oj = if k < before.len() && j >= k { j + 1 } else { j };
                    assert(after[j] == before[oj]);
                    assert(before[oi].device_id@ != before[oj].device_id@);
                } else {
                    if k < before.len() {
                        if oi < k {
                            assert(before[oi].device_id@ != before[k as int].device_id@);
                        } else {
                            assert(before[k as int].device_id@ != before[oi].device_id@);
                        }
                    }
                }
            }
            assert(after[after.len() - 1] == connection);
        }
        self.put(user, conns);
        displaced
    }

    /// Takes out the connection of `device` that goes through `channel`,
    /// when that connection has ended. Returns whether it was there.
    pub fn unregister(&mut self, user: u128, device: &String, channel: u64) -> (removed: bool)
        requires
            old(self).wf(),
        ensures
            final(self).wf(),
            final(self)@ == old(self)@.with(user, old(self)@.disconnected(user, device@, channel)),
            removed == (old(self)@.has_device(user, device@) && old(self)@.of(user)[device_index(
                old(self)@.of(user),
                device@,
            )].channel == channel),
    {
        let mut conns = self.connections_of(user);
        let k = find_device(&conns, device);
        let ghost before = conns@;
        if k < conns.len() && conns[k].channel == channel {
            let _ = conns.remove(k);
            proof {
                let after = conns@;
                assert forall|i: int| 0 <= i < after.len() implies (#[trigger] after[i]).user_id
                    == user by {
                    let o = if i >= k { i + 1 } else { i };
                    assert(after[i] == before[o]);
                }
                assert forall|i: int, j: int| 0 <= i < j < after.len() implies after[i].device_id@
                    != after[j].device_id@ by {
                    let oi = if i >= k { i + 1 } else { i };
                    let oj = if j >= k { j + 1 } else { j };
                    assert(after[i] == before[oi] && after[j] == before[oj]);
                    assert(before[oi].device_id@ != before[oj].device_id@);
                }
            }
            self.put(user, conns);
            true
        } else {
            proof {
                assert(self@.with(user, before).entries =~= self@.entries);
            }
            false
        }
    }

    /// Notes a heartbeat of `device` at `now`. Returns whether the device
    /// is connected.
    pub fn heartbeat(&mut self, user: u128, device: &String, now: i64) -> (known: bool)
        requires
            old(self).wf(),
        ensures
            final(self).wf(),
            final(self)@ == old(self)@.with(user, old(self)@.beaten(user, device@, now)),
            known == old(self)@.has_device(user, device@),
    {
        let mut conns = self.connections_of(user);
        let k = find_device(&conns, device);
        let ghost before = conns@;
        if k < conns.len() {
            conns[k].last_heartbeat = now;
            proof {
                let after = conns@;
                assert(after =~= self@.beaten(user, device@, now));
                assert forall|i: int| 0 <= i < after.len() implies (#[trigger] after[i]).user_id
                    == user by {
                    assert(before[i].user_id == user);
                }
                assert forall|i: int, j: int| 0 <= i < j < after.len() implies after[i].device_id@
                    != after[j].device_id@ by {
                    assert(before[i].device_id@ != before[j].device_id@);
                }
            }
            self.put(user, conns);
            true
        } else {
            proof {
                assert(self@.with(user, before).entries =~= self@.entries);
            }
            false
        }
    }

    /// The connections to which a frame of `sender` for `members` goes: all
    /// connections of every member but the sender. The author gets no echo.
    pub fn fan_out(&self, members: &Vec<u128>, sender: u128) -> (targets: Vec<Connection>)
        ensures
            targets@ == self@.targets(members@, sender),
    {
        let mut targets: Vec<Connection> = Vec::new();
        let mut i: usize = 0;
        proof {
            assert(members@.take(0) =~= Seq::empty());
        }
        while i < members.len()
            invariant
                i <= members.len(),
                targets@ == self@.targets(members@.take(i as int), sender),
            decreases members.len() - i,
        {
            proof {
                assert(members@.take(i as int + 1).drop_last() =~= members@.take(i as int));
            }
            if members[i] != sender {
                let mut conns = self.connections_of(members[i]);
                targets.append(&mut conns);
            }
            i = i + 1;
        }
        proof {
            assert(members@.take(members@.len() as int) =~= members@);
        }
        targets
    }

    /// Drops every connection that has been silent for too long at `now`
    /// and hands the dropped ones back, so that they can be closed and
    /// their users be reported offline.
    pub fn sweep(&mut self, now: i64) -> (dropped: Vec<Connection>)
        requires
            old(self).wf(),
        ensures
            final(self).wf(),
            final(self)@.entries =~= old(self)@.swept(now).entries,
            forall|c: Connection| #[trigger]
                dropped@.contains(c) <==> old(self)@.holds(c) && c.is_stale(now),
    {
        let keys = map_keys(&self.map);
        let mut dropped: Vec<Connection> = Vec::new();
        let mut i: usize = 0;
        let ghost start = self@;
        proof {
            assert(keys@.take(0) =~= Seq::empty());
        }
        while i < keys.len()
            invariant
                start == old(self)@,
                start.valid(),
                self.wf(),
                i <= keys.len(),
                keys@.no_duplicates(),
                forall|k: u128| keys@.contains(k) <==> start.entries.contains_key(k),
                forall|k: u128|
                    sweep_entry_ok(start, self@, keys@.take(i as int), now, k),
                forall|c: Connection| collected_ok(start, dropped@, keys@.take(i as int), now, true, c),
            decreases keys.len() - i,
        {
            let user = keys[i];
            let ghost done = keys@.take(i as int);
            let ghost done_next = keys@.take(i as int + 1);
            let ghost before_dropped = dropped@;
            let ghost before = self@;
            proof {
                assert(keys@.contains(user));
                lemma_take_next_contains(keys@, i as int, user);
                assert(sweep_entry_ok(start, before, done, now, user));
            }
            let conns = self.connections_of(user);
            assert(conns@ == start.entries[user]);
            let (live, mut stale) = split_stale(&conns, now);
            proof {
                lemma_live_devices_distinct(conns@, now);
                assert forall|j: int| 0 <= j < live@.len() implies (#[trigger] live@[j]).user_id
                    == user by {
                    lemma_live_origin(conns@, now, j, j);
                    let o = live_origin(conns@, now, j);
                    assert(conns@[o].user_id == user);
                }
            }
            let ghost stale_part = stale@;
            dropped.append(&mut stale);
            self.put(user, live);
            proof {
                assert forall|k: u128| sweep_entry_ok(start, self@, done_next, now, k) by {
                    lemma_take_next_contains(keys@, i as int, k);
                    assert(sweep_entry_ok(start, before, done, now, k));
                }
                assert(dropped@ == before_dropped + stale_part);
                assert forall|c: Connection|
                    collected_ok(start, dropped@, done_next, now, true, c) by {
                    assert(collected_ok(start, before_dropped, done, now, true, c));
                    lemma_take_next_contains(keys@, i as int, c.user_id);
                    lemma_concat_contains(before_dropped, stale_part, c);
                    lemma_live_only(conns@, now, c);
                    if conns@.contains(c) {
                        let o = choose|o: int| 0 <= o < conns@.len() && conns@[o] == c;
                        assert(conns@[o].user_id == user);
                    }
                }
            }
            i = i + 1;
        }
        proof {
            assert(keys@.take(keys@.len() as int) =~= keys@);
            let target = start.swept(now).entries;
            let cur = self@.entries;
            assert forall|k: u128| #[trigger] cur.dom().contains(k) implies target.dom().contains(
                k,
            ) && cur[k] == target[k] by {
                assert(sweep_entry_ok(start, self@, keys@, now, k));
            }
            assert forall|k: u128| #[trigger] target.dom().contains(k) implies cur.dom().contains(
                k,
            ) by {
                assert(sweep_entry_ok(start, self@, keys@, now, k));
            }
            assert(cur =~= target);
            assert forall|c: Connection| #[trigger]
                dropped@.contains(c) <==> start.holds(c) && c.is_stale(now) by {
                assert(collected_ok(start, dropped@, keys@, now, true, c));
                if start.holds(c) {
                    assert(start.entries.contains_key(c.user_id));
                }
            }
        }
        dropped
    }

    /// Takes every connection out of the registry, for a shutdown, and
    /// hands them back to be closed.
    pub fn drain(&mut self) -> (all: Vec<Connection>)
        requires
            old(self).wf(),
        ensures
            final(self).wf(),
            final(self)@.entries =~= Map::empty(),
            forall|c: Connection| #[trigger] all@.contains(c) <==> old(self)@.holds(c),
    {
        let keys = map_keys(&self.map);
        let mut all: Vec<Connection> = Vec::new();
        let mut i: usize = 0;
        let ghost start = self@;
        proof {
            assert(keys@.take(0) =~= Seq::empty());
        }
        while i < keys.len()
            invariant
                start == old(self)@,
                start.valid(),
                self.wf(),
                i <= keys.len(),
                keys@.no_duplicates(),
                forall|k: u128| keys@.contains(k) <==> start.entries.contains_key(k),
                forall|k: u128| drain_entry_ok(start, self@, keys@.take(i as int), k),
                forall|c: Connection| collected_ok(start, all@, keys@.take(i as int), 0, false, c),
            decreases keys.len() - i,
        {
            let user = keys[i];
            let ghost done = keys@.take(i as int);
            let ghost done_next = keys@.take(i as int + 1);
            let ghost before_all = all@;
            let ghost before = self@;
            proof {
                assert(keys@.contains(user));
                lemma_take_next_contains(keys@, i as int, user);
                assert(drain_entry_ok(start, before, done, user));
            }
            let mut conns = self.connections_of(user);
            let ghost part = conns@;
            assert(part == start.entries[user]);
            all.append(&mut conns);
            self.put(user, Vec::new());
            proof {
                assert forall|k: u128| drain_entry_ok(start, self@, done_next, k) by {
                    lemma_take_next_contains(keys@, i as int, k);
                    assert(drain_entry_ok(start, before, done, k));
                }
                assert(all@ == before_all + part);
                assert forall|c: Connection| collected_ok(start, all@, done_next, 0, false, c) by {
                    assert(collected_ok(start, before_all, done, 0, false, c));
                    lemma_take_next_contains(keys@, i as int, c.user_id);
                    lemma_concat_contains(before_all, part, c);
                    if part.contains(c) {
                        let o = choose|o: int| 0 <= o < part.len() && part[o] == c;
                        assert(part[o].user_id == user);
                    }
                }
            }
            i = i + 1;
        }
        proof {
            assert(keys@.take(keys@.len() as int) =~= keys@);
            assert forall|k: u128| !self@.entries.contains_key(k) by {
                assert(drain_entry_ok(start, self@, keys@, k));
            }
            assert forall|c: Connection| #[trigger] all@.contains(c) <==> start.holds(c) by {
                assert(collected_ok(start, all@, keys@, 0, false, c));
                if start.holds(c) {
                    assert(start.entries.contains_key(c.user_id));
                }
            }
        }
        all
    }
}

} // verus!
