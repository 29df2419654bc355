//! The gateway hub: what it decides when a client connects, sends a frame or
//! falls silent, and to whom it delivers what comes back from the bus.
//!
//! The hub decides; the caller owns the sockets and channels and does what
//! the hub says.

use vstd::prelude::*;
use crate::auth::{token_in_time, TokenClaims};
use crate::bus::{Route, Topic};
use crate::envelope::{copy_bytes, EnvelopeView, MessageEnvelope, ProcessedMessage};
use crate::registry::{Connection, ConnectionRegistry};
use crate::text::same_text;

verus! {

/// Close code of a connection that ended in the ordinary way.
pub const CLOSE_NORMAL: u16 = 1000;

/// Close code of connections that end because the gateway shuts down.
pub const CLOSE_SHUTDOWN: u16 = 1001;

/// Close code of a handshake with a token that is not accepted.
pub const CLOSE_AUTH_FAILURE: u16 = 4401;

/// Close code of a connection whose outbound channel was full.
pub const CLOSE_SLOW_CONSUMER: u16 = 4008;

/// Close code of a connection that a newer one of the same device displaced.
pub const CLOSE_REPLACED: u16 = 4409;

/// Seconds for which the members of a conversation may be taken from the
/// cache.
pub const MEMBER_CACHE_TTL_SECS: i64 = 5;

/// Seconds that a shutdown waits for work that is under way.
pub const SHUTDOWN_GRACE_SECS: u64 = 30;

/// A message as a client sends and receives it.
#[derive(Debug)]
pub struct ClientMessage {
    pub conversation_id: u128,
    pub message_id: u128,
    pub content: Vec<u8>,
    pub nonce: Vec<u8>,
    pub reply_to: Option<u128>,
    pub timestamp: i64,
}

/// A client message as mathematical values.
pub struct ClientMessageView {
    pub conversation_id: u128,
    pub message_id: u128,
    pub content: Seq<u8>,
    pub nonce: Seq<u8>,
    pub reply_to: Option<u128>,
    pub timestamp: i64,
}

impl View for ClientMessage {
    type V = ClientMessageView;

    open spec fn view(&self) -> ClientMessageView {
        ClientMessageView {
            conversation_id: self.conversation_id,
            message_id: self.message_id,
            content: self.content@,
            nonce: self.nonce@,
            reply_to: self.reply_to,
            timestamp: self.timestamp,
        }
    }
}

/// What a client says of its own presence.
#[derive(Debug)]
pub struct PresenceUpdate {
    pub status: String,
    pub custom_status: Option<String>,
    pub last_active: i64,
}

/// Notice that somebody is typing, or has stopped.
#[derive(Debug, Clone, Copy, PartialEq, Eq, Structural)]
pub struct TypingIndicator {
    pub conversation_id: u128,
    pub is_typing: bool,
}

/// Notice that the sender has read a message.
#[derive(Debug, Clone, Copy, PartialEq, Eq, Structural)]
pub struct ReadReceipt {
    pub message_id: u128,
    pub conversation_id: u128,
    pub read_at: i64,
}

/// A frame on a connection.
#[derive(Debug)]
pub enum WsMessage {
    Heartbeat,
    Message(ClientMessage),
    Presence(PresenceUpdate),
    Typing(TypingIndicator),
    ReadReceipt(ReadReceipt),
}

/// What is to be done about a frame from a client.
#[derive(Debug)]
pub enum FrameAction {
    /// Nothing further: the heartbeat has been noted.
    Nothing,
    /// Publish the envelope on the bus.
    Publish(MessageEnvelope, Route),
    /// Store the presence and tell the others.
    UpdatePresence(PresenceUpdate),
    /// Tell the online members of the conversation, the sender excepted.
    BroadcastTyping(TypingIndicator),
    /// Publish the receipt on the bus.
    PublishReceipt(ReadReceipt, Route),
}

/// The envelope that the gateway makes of a client's message: the same
/// bytes, with the author that the connection stands for and the instant at
/// which the gateway accepted it.
pub open spec fn envelope_of(m: ClientMessageView, sender: u128, received_at: i64) -> EnvelopeView {
    EnvelopeView {
        sender_id: sender,
        conversation_id: m.conversation_id,
        message_id: m.message_id,
        content: m.content,
        nonce: m.nonce,
        reply_to: m.reply_to,
        timestamp: m.timestamp,
        received_at,
    }
}

/// The frame in which a persisted message reaches a client.
pub open spec fn frame_of(e: crate::envelope::ProcessedView) -> ClientMessageView {
    ClientMessageView {
        conversation_id: e.conversation_id,
        message_id: e.message_id,
        content: e.content,
        nonce: e.nonce,
        reply_to: e.reply_to,
        timestamp: e.timestamp,
    }
}

/// Makes the envelope of a client's message and says where it goes: on
/// `messages`, under its conversation, so that the messages of a
/// conversation stay in order.
pub fn forward_message(message: ClientMessage, sender_id: u128, received_at: i64) -> (out: (
    MessageEnvelope,
    Route,
))
    ensures
        out.0@ == envelope_of(message@, sender_id, received_at),
        out.1 == (Route { topic: Topic::Messages, key: message.conversation_id }),
{
    let route = Route { topic: Topic::Messages, key: message.conversation_id };
    let envelope = MessageEnvelope {
        sender_id,
        conversation_id: message.conversation_id,
        message_id: message.message_id,
        content: message.content,
        nonce: message.nonce,
        reply_to: message.reply_to,
        timestamp: message.timestamp,
        received_at,
    };
    (envelope, route)
}

/// Makes the frame in which a persisted message reaches the clients.
pub fn outbound_frame(message: &ProcessedMessage) -> (frame: ClientMessage)
    ensures
        frame@ == frame_of(message@),
{
    ClientMessage {
        conversation_id: message.conversation_id,
        message_id: message.message_id,
        content: copy_bytes(&message.content),
        nonce: copy_bytes(&message.nonce),
        reply_to: message.reply_to,
        timestamp: message.timestamp,
    }
}

/// Decides a handshake. `claims` are the claims of the presented token if
/// its signature is good, and nothing otherwise. On success the user of the
/// token is connected; on failure the connection is closed with the code
/// for a failed authentication.
pub fn authenticate_handshake(claims: Option<&TokenClaims>, now: i64, skew: i64) -> (result:
    Result<u128, u16>)
    ensures
        result == match claims {
            Some(c) => if token_in_time(c.iat, c.exp, now, skew) {
                Ok::<u128, u16>(c.sub)
            } else {
                Err::<u128, u16>(CLOSE_AUTH_FAILURE)
            },
            None => Err::<u128, u16>(CLOSE_AUTH_FAILURE),
        },
{
    match claims {
        Some(c) => match c.validate(now, skew) {
            Ok(_) => Ok(c.sub),
            Err(_) => Err(CLOSE_AUTH_FAILURE),
        },
        None => Err(CLOSE_AUTH_FAILURE),
    }
}

/// What follows from a new connection.
#[derive(Debug)]
pub struct ConnectOutcome {
    /// The older connection of the device, to be closed as replaced.
    pub displaced: Option<Connection>,
    /// The code with which the displaced connection is closed.
    pub close_code: u16,
    /// Whether the user had no connection before, so that the user has
    /// come online.
    pub came_online: bool,
}

/// Takes in a connection whose handshake succeeded.
pub fn handle_connect(
    registry: &mut ConnectionRegistry,
    user_id: u128,
    device_id: String,
    channel: u64,
    now: i64,
) -> (outcome: ConnectOutcome)
    requires
        old(registry).wf(),
    ensures
        final(registry).wf(),
        ({
            let c = Connection { user_id, device_id, last_heartbeat: now, channel };
            &&& final(registry)@ == old(registry)@.with(user_id, old(registry)@.connected(c))
            &&& outcome.displaced == old(registry)@.displaced_by(c)
            &&& final(registry)@.holds(c)
        }),
        outcome.close_code == CLOSE_REPLACED,
        outcome.came_online == !old(registry)@.entries.contains_key(user_id),
{
    let came_online = !registry.is_online(user_id);
    let displaced = registry.register(
        Connection { user_id, device_id, last_heartbeat: now, channel },
    );
    ConnectOutcome { displaced, close_code: CLOSE_REPLACED, came_online }
}

/// Takes out a connection that has ended. Returns whether the user has
/// no connection left, so that the user has gone offline.
pub fn handle_disconnect(
    registry: &mut ConnectionRegistry,
    user_id: u128,
    device_id: &String,
    channel: u64,
) -> (went_offline: bool)
    requires
        old(registry).wf(),
    ensures
        final(registry).wf(),
        final(registry)@ == old(registry)@.with(
            user_id,
            old(registry)@.disconnected(user_id, device_id@, channel),
        ),
        went_offline == (old(registry)@.entries.contains_key(user_id)
            && !final(registry)@.entries.contains_key(user_id)),
{
    let removed = registry.unregister(user_id, device_id, channel);
    removed && !registry.is_online(user_id)
}

/// Why a frame could not be handed to a connection.
#[derive(Debug, Clone, Copy, PartialEq, Eq, Structural)]
pub enum SendFailure {
    /// The outbound channel was full: the client reads too slowly.
    Full,
    /// The outbound channel was closed: the connection is ending.
    Closed,
}

/// Deals with a frame that could not be handed to `connection`: that
/// connection leaves the registry, and no other one is touched. Returns the
/// code with which the connection is to be closed, if it is to be closed.
pub fn handle_send_failure(
    registry: &mut ConnectionRegistry,
    connection: &Connection,
    failure: SendFailure,
) -> (close_code: Option<u16>)
    requires
        old(registry).wf(),
    ensures
        final(registry).wf(),
        final(registry)@ == old(registry)@.with(
            connection.user_id,
            old(registry)@.disconnected(
                connection.user_id,
                connection.device_id@,
                connection.channel,
            ),
        ),
        close_code == match failure {
            SendFailure::Full => Some(CLOSE_SLOW_CONSUMER),
            SendFailure::Closed => None,
        },
{
    let _ = registry.unregister(connection.user_id, &connection.device_id, connection.channel);
    match failure {
        SendFailure::Full => Some(CLOSE_SLOW_CONSUMER),
        SendFailure::Closed => None,
    }
}

/// Handles a frame that the device `device_id` of `user_id` sent at `now`.
pub fn handle_frame(
    registry: &mut ConnectionRegistry,
    user_id: u128,
    device_id: &String,
    frame: WsMessage,
    now: i64,
) -> (action: FrameAction)
    requires
        old(registry).wf(),
    ensures
        final(registry).wf(),
        final(registry)@ == if frame is Heartbeat {
            old(registry)@.with(user_id, old(registry)@.beaten(user_id, device_id@, now))
        } else {
            old(registry)@
        },
        match frame {
            WsMessage::Heartbeat => action is Nothing,
            WsMessage::Message(m) => action matches FrameAction::Publish(e, r) && e@
                == envelope_of(m@, user_id, now) && r == (Route {
                topic: Topic::Messages,
                key: m.conversation_id,
            }),
            WsMessage::Presence(p) => action matches FrameAction::UpdatePresence(q) && q == p,
            WsMessage::Typing(t) => action matches FrameAction::BroadcastTyping(u) && u == t,
            WsMessage::ReadReceipt(x) => action matches FrameAction::PublishReceipt(y, r) && y
                == x && r == (Route { topic: Topic::ReadReceipts, key: user_id }),
        },
{
    match frame {
        WsMessage::Heartbeat => {
            let _ = registry.heartbeat(user_id, device_id, now);
            FrameAction::Nothing
        },
        WsMessage::Message(message) => {
            let (envelope, route) = forward_message(message, user_id, now);
            FrameAction::Publish(envelope, route)
        },
        WsMessage::Presence(presence) => FrameAction::UpdatePresence(presence),
        WsMessage::Typing(typing) => FrameAction::BroadcastTyping(typing),
        WsMessage::ReadReceipt(receipt) => FrameAction::PublishReceipt(
            receipt,
            Route { topic: Topic::ReadReceipts, key: user_id },
        ),
    }
}

/// The connections to which a persisted message is delivered: every live
/// connection of every member of the conversation, the author excepted.
pub fn broadcast_message(
    registry: &ConnectionRegistry,
    message: &ProcessedMessage,
    members: &Vec<u128>,
) -> (targets: Vec<Connection>)
    ensures
        targets@ == registry@.targets(members@, message.sender_id),
{
    registry.fan_out(members, message.sender_id)
}

/// The connections that are told that `sender_id` is typing: those of the
/// members of the conversation, the sender excepted.
pub fn broadcast_typing(
    registry: &ConnectionRegistry,
    members: &Vec<u128>,
    sender_id: u128,
) -> (targets: Vec<Connection>)
    ensures
        targets@ == registry@.targets(members@, sender_id),
{
    registry.fan_out(members, sender_id)
}

/// Drops the connections that have been silent for too long.
pub fn cleanup_stale_connections(registry: &mut ConnectionRegistry, now: i64) -> (dropped: Vec<
    Connection,
>)
    requires
        old(registry).wf(),
    ensures
        final(registry).wf(),
        final(registry)@.entries =~= old(registry)@.swept(now).entries,
        forall|c: Connection| #[trigger]
            dropped@.contains(c) <==> old(registry)@.holds(c) && c.is_stale(now),
{
    registry.sweep(now)
}

/// Empties the registry for a shutdown. Every connection is to be closed
/// with the code that is handed back.
pub fn shutdown(registry: &mut ConnectionRegistry) -> (out: (Vec<Connection>, u16))
    requires
        old(registry).wf(),
    ensures
        final(registry).wf(),
        final(registry)@.entries =~= Map::empty(),
        forall|c: Connection| #[trigger] out.0@.contains(c) <==> old(registry)@.holds(c),
        out.1 == CLOSE_SHUTDOWN,
{
    (registry.drain(), CLOSE_SHUTDOWN)
}

/// What the gateway does with a record from a topic it listens to.
#[derive(Debug, Clone, Copy, PartialEq, Eq, Structural)]
pub enum ConsumerRoute {
    /// A persisted message: deliver it.
    Deliver,
    /// A change of presence: pass it on.
    Presence,
    /// Not for the gateway.
    Ignore,
}

/// Says what the gateway does with a record from `topic`.
pub fn route_topic(topic: &str) -> (route: ConsumerRoute)
    ensures
        route == if topic@ == "processed-messages"@ {
            ConsumerRoute::Deliver
        } else if topic@ == "presence-events"@ {
            ConsumerRoute::Presence
        } else {
            ConsumerRoute::Ignore
        },
{
    if same_text(topic, "processed-messages") {
        ConsumerRoute::Deliver
    } else if same_text(topic, "presence-events") {
        ConsumerRoute::Presence
    } else {
        ConsumerRoute::Ignore
    }
}

/// The members of one conversation as the gateway last fetched them.
#[derive(Debug)]
pub struct CachedMembers {
    pub conversation_id: u128,
    pub members: Vec<u128>,
    pub fetched_at: i64,
}

/// The gateway's short-lived memory of who belongs to which conversation.
#[derive(Debug)]
pub struct MemberCache {
    entries: Vec<CachedMembers>,
}

impl MemberCache {
    /// The entries of the cache.
    pub closed spec fn entries(&self) -> Seq<CachedMembers> {
        self.entries@
    }

    /// The place of the entry of a conversation; the number of entries
    /// where there is none.
    pub open spec fn index_of(entries: Seq<CachedMembers>, conversation_id: u128) -> int
        decreases entries.len(),
    {
        if entries.len() == 0 {
            0
        } else if entries[0].conversation_id == conversation_id {
            0
        } else {
            1 + Self::index_of(entries.skip(1), conversation_id)
        }
    }

    /// Whether an entry fetched at `fetched_at` may still be used at `now`.
    pub open spec fn fresh(fetched_at: i64, now: i64) -> bool {
        fetched_at <= now && now - fetched_at < MEMBER_CACHE_TTL_SECS
    }

    /// An empty cache.
    pub fn new() -> (cache: MemberCache)
        ensures
            cache.entries().len() == 0,
    {
        MemberCache { entries: Vec::new() }
    }

    fn find(&self, conversation_id: u128) -> (k: usize)
        ensures
            k == Self::index_of(self.entries(), conversation_id),
            k <= self.entries().len(),
            k < self.entries().len() ==> self.entries()[k as int].conversation_id
                == conversation_id,
    {
        let mut i: usize = 0;
        proof {
            assert(self.entries@.skip(0) =~= self.entries@);
        }
        while i < self.entries.len()
            invariant
                i <= self.entries.len(),
                Self::index_of(self.entries@, conversation_id) == i + Self::index_of(
                    self.entries@.skip(i as int),
                    conversation_id,
                ),
            decreases self.entries.len() - i,
        {
            assert(self.entries@.skip(i as int)[0] == self.entries@[i as int]);
            if self.entries[i].conversation_id == conversation_id {
                return i;
            }
            proof {
                assert(self.entries@.skip(i as int).skip(1) =~= self.entries@.skip(i as int + 1));
            }
            i = i + 1;
        }
        i
    }

    /// The members of a conversation, if they were fetched less than five
    /// seconds before `now`.
    pub fn lookup(&self, conversation_id: u128, now: i64) -> (members: Option<Vec<u128>>)
        ensures
            ({
                let k = Self::index_of(self.entries(), conversation_id);
                if k < self.entries().len() && Self::fresh(self.entries()[k].fetched_at, now) {
                    members matches Some(m) && m@ == self.entries()[k].members@
                } else {
                    members is None
                }
            }),
    {
        let k = self.find(conversation_id);
        if k < self.entries.len() {
            let fetched_at = self.entries[k].fetched_at;
            let is_fresh = fetched_at <= now && match now.checked_sub(fetched_at) {
                Some(age) => age < MEMBER_CACHE_TTL_SECS,
                None => false,
            };
            if is_fresh {
                let copy = copy_ids(&self.entries[k].members);
                return Some(copy);
            }
        }
        None
    }

    /// Remembers the members of a conversation as fetched at `now`, in
    /// place of what was remembered of it before.
    pub fn store(&mut self, conversation_id: u128, members: Vec<u128>, now: i64)
        ensures
            ({
                let k = Self::index_of(old(self).entries(), conversation_id);
                let entry = CachedMembers { conversation_id, members, fetched_at: now };
                final(self).entries() == if k < old(self).entries().len() {
                    old(self).entries().update(k, entry)
                } else {
                    old(self).entries().push(entry)
                }
            }),
    {
        let k = self.find(conversation_id);
        let entry = CachedMembers { conversation_id, members, fetched_at: now };
        if k < self.entries.len() {
            self.entries.set(k, entry);
        } else {
            self.entries.push(entry);
        }
    }
}

/// Copies a list of ids.
pub fn copy_ids(ids: &Vec<u128>) -> (copy: Vec<u128>)
    ensures
        copy@ == ids@,
{
    let mut copy: Vec<u128> = Vec::with_capacity(ids.len());
    let mut i: usize = 0;
    while i < ids.len()
        invariant
            i <= ids.len(),
            copy@ == ids@.take(i as int),
        decreases ids.len() - i,
    {
        copy.push(ids[i]);
        assert(ids@.take(i as int + 1) =~= ids@.take(i as int).push(ids@[i as int]));
        i = i + 1;
    }
    assert(ids@.take(ids.len() as int) =~= ids@);
    copy
}

/// Counts the frames of one connection that could not be read, second by
/// second. A single bad frame is passed over; a connection that keeps
/// sending them is closed.
#[derive(Debug, Clone, Copy, PartialEq, Eq, Structural)]
pub struct ParseErrorMeter {
    /// The second that is being counted.
    pub second: i64,
    /// Bad frames in that second.
    pub count: u32,
}

impl ParseErrorMeter {
    /// A meter that has seen nothing.
    pub fn new(now: i64) -> (meter: ParseErrorMeter)
        ensures
            meter == (ParseErrorMeter { second: now, count: 0 }),
    {
        ParseErrorMeter { second: now, count: 0 }
    }

    /// The meter after a bad frame at `now`.
    pub open spec fn noted(self, now: i64) -> ParseErrorMeter {
        if now == self.second {
            ParseErrorMeter {
                second: now,
                count: if self.count < u32::MAX {
                    (self.count + 1) as u32
                } else {
                    self.count
                },
            }
        } else {
            ParseErrorMeter { second: now, count: 1 }
        }
    }

    /// Notes a bad frame at `now`. Returns whether the connection is to be
    /// closed: whether more than `limit` bad frames came within this second.
    pub fn note(&mut self, now: i64, limit: u32) -> (close: bool)
        ensures
            *final(self) == old(self).noted(now),
            close == (old(self).noted(now).count > limit),
    {
        if now == self.second {
            if self.count < u32::MAX {
                self.count = self.count + 1;
            }
        } else {
            self.second = now;
            self.count = 1;
        }
        self.count > limit
    }
}

} // verus!
