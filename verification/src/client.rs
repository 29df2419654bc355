//! The client: what it sends to register, to log in and to talk, and what
//! it makes of what comes back. The client owns no socket here: it builds
//! requests and frames and is told what was answered.

use vstd::prelude::*;
use vstd::string::StringExecFns;
use crate::gateway::{ClientMessage, PresenceUpdate, TypingIndicator, WsMessage};
use crate::ids::new_id;
use crate::primitives::{
    base64_encode, base64_text, chacha20_poly1305_open, chacha20_poly1305_opened,
    chacha20_poly1305_seal, chacha20_poly1305_sealed, ed25519_public, ed25519_public_key,
    ed25519_random_secret,
};
use crate::text::{replace_text, text_replaced};

verus! {

/// Seconds between two heartbeats of the client.
pub const CLIENT_HEARTBEAT_SECS: u64 = 30;

/// Seconds after which a request of the client is given up.
pub const REQUEST_TIMEOUT_SECS: u64 = 30;

/// Number of one-time keys that a client makes when it registers.
pub const ONE_TIME_KEYS_AT_REGISTRATION: usize = 100;

/// How an operation of the client failed.
#[derive(Debug)]
pub enum SdkError {
    NetworkError(String),
    AuthError(String),
    EncryptionError(String),
    WebSocketError(String),
    SerializationError(String),
    InvalidState(String),
}

/// Somebody who wants to hear of every message.
pub trait MessageHandler {
    fn on_message(&self, message: &ClientMessage);
}

/// Somebody who wants to hear of every change of presence.
pub trait PresenceHandler {
    fn on_presence_update(&self, presence: &PresenceUpdate);
}

/// What a client sends to register.
#[derive(Debug)]
pub struct RegistrationRequest {
    pub username: String,
    pub email: String,
    pub password: String,
    pub public_key: String,
    pub dh_public_key: String,
    pub signed_pre_key: String,
    pub one_time_keys: Vec<String>,
}

/// What a client sends to log in.
#[derive(Debug)]
pub struct LoginRequest {
    pub username: String,
    pub password: String,
    pub device_id: String,
    pub device_name: String,
}

/// A user as the auth authority shows it.
#[derive(Debug)]
pub struct UserResponse {
    pub id: u128,
    pub username: String,
    pub email: String,
    pub public_key: String,
    pub dh_public_key: String,
    pub created_at: i64,
}

/// What the auth authority answers to a registration, a login or a
/// refresh.
#[derive(Debug)]
pub struct AuthResponse {
    pub access_token: String,
    pub refresh_token: String,
    pub expires_in: u64,
    pub user: UserResponse,
}

/// What a client sends to found a group.
#[derive(Debug)]
pub struct CreateGroupRequest {
    pub name: String,
    pub user_ids: Vec<u128>,
    pub is_encrypted: bool,
}

/// A group as the server shows it.
#[derive(Debug)]
pub struct GroupResponse {
    pub id: u128,
    pub name: String,
    pub created_at: i64,
}

/// What reaches the application from the connection.
#[derive(Debug)]
pub enum IncomingMessage {
    ChatMessage(ClientMessage),
    TypingIndicator(TypingIndicator),
    PresenceUpdate(PresenceUpdate),
}

/// The keys under which the client talks in one conversation.
#[derive(Debug)]
pub struct DoubleRatchetSession {
    pub root_key: [u8; 32],
    pub sending_chain_key: [u8; 32],
    pub receiving_chain_key: [u8; 32],
    pub sending_ratchet_key: [u8; 32],
    pub receiving_ratchet_key: [u8; 32],
    pub message_number: u32,
}

impl DoubleRatchetSession {
    /// Encrypts under the sending chain key itself, with ChaCha20-Poly1305
    /// and a nonce of twelve zero bytes, and hands the nonce back with the
    /// ciphertext.
    pub fn encrypt(&self, plaintext: &[u8]) -> (result: Option<(Vec<u8>, Vec<u8>)>)
        ensures
            match result {
                Some(out) => chacha20_poly1305_sealed(
                    self.sending_chain_key@,
                    Seq::new(12, |i: int| 0u8),
                    plaintext@,
                ) == Some(out.0@) && out.1@ == Seq::new(12, |i: int| 0u8),
                None => chacha20_poly1305_sealed(
                    self.sending_chain_key@,
                    Seq::new(12, |i: int| 0u8),
                    plaintext@,
                ) is None,
            },
    {
        let nonce = [0u8; 12];
        assert(nonce@ =~= Seq::new(12, |i: int| 0u8));
        match chacha20_poly1305_seal(&self.sending_chain_key, &nonce, plaintext) {
            Some(ciphertext) => {
                let mut used: Vec<u8> = Vec::new();
                used.extend_from_slice(nonce.as_slice());
                assert(used@ =~= nonce@);
                Some((ciphertext, used))
            },
            None => None,
        }
    }

    /// Decrypts under the receiving chain key itself. A nonce that is not
    /// twelve bytes long opens nothing.
    pub fn decrypt(&self, ciphertext: &[u8], nonce: &[u8]) -> (result: Option<Vec<u8>>)
        ensures
            match result {
                Some(p) => nonce@.len() == 12 && chacha20_poly1305_opened(
                    self.receiving_chain_key@,
                    nonce@,
                    ciphertext@,
                ) == Some(p@),
                None => nonce@.len() != 12 || chacha20_poly1305_opened(
                    self.receiving_chain_key@,
                    nonce@,
                    ciphertext@,
                ) is None,
            },
    {
        if nonce.len() != 12 {
            return None;
        }
        let mut short = [0u8; 12];
        let mut i: usize = 0;
        while i < 12
            invariant
                i <= 12,
                nonce@.len() == 12,
                forall|j: int| 0 <= j < i ==> short@[j] == nonce@[j],
            decreases 12 - i,
        {
            short[i] = nonce[i];
            i = i + 1;
        }
        assert(short@ =~= nonce@);
        chacha20_poly1305_open(&self.receiving_chain_key, &short, ciphertext)
    }
}

/// The address of the gateway's socket for a server at `base_url`.
pub open spec fn socket_address(base_url: Seq<char>) -> Seq<char> {
    "ws://"@ + text_replaced(base_url, "http://"@, ""@) + "/ws"@
}

/// The address at which a client with this token and device connects.
pub open spec fn connect_address(ws_url: Seq<char>, token: Seq<char>, device: Seq<char>) -> Seq<
    char,
> {
    ws_url + "?token="@ + token + "&device_id="@ + device
}

/// What is said to somebody who has not logged in.
pub open spec fn not_authenticated() -> Seq<char> {
    "Not authenticated"@
}

/// What is said to somebody who is not connected.
pub open spec fn not_connected() -> Seq<char> {
    "WebSocket not connected"@
}

/// What is said where a conversation has no keys.
pub open spec fn no_session() -> Seq<char> {
    "No encryption session for conversation"@
}

/// What a cipher says when it fails.
pub open spec fn cipher_failed() -> Seq<char> {
    "aead::Error"@
}

/// The client.
#[derive(Debug)]
pub struct MessagingClient {
    base_url: String,
    ws_url: String,
    auth_token: Option<String>,
    user_id: Option<u128>,
    device_id: String,
    connected: bool,
    identity_key: [u8; 32],
    signed_pre_key: [u8; 32],
    one_time_keys: Vec<[u8; 32]>,
    sessions: Vec<(u128, DoubleRatchetSession)>,
}

/// The place of the keys of a conversation; the number of sessions where
/// there are none.
pub open spec fn session_index(sessions: Seq<(u128, DoubleRatchetSession)>, conversation: u128)
    -> int
    decreases sessions.len(),
{
    if sessions.len() == 0 {
        0
    } else if sessions[0].0 == conversation {
        0
    } else {
        1 + session_index(sessions.skip(1), conversation)
    }
}

impl MessagingClient {
    /// The address of the server.
    pub closed spec fn base_url(&self) -> Seq<char> {
        self.base_url@
    }

    /// The address of the gateway's socket.
    pub closed spec fn ws_url(&self) -> Seq<char> {
        self.ws_url@
    }

    /// The access token, once the client has logged in.
    pub closed spec fn token(&self) -> Option<String> {
        self.auth_token
    }

    /// The user, once the client has logged in.
    pub closed spec fn user(&self) -> Option<u128> {
        self.user_id
    }

    /// The device.
    pub closed spec fn device(&self) -> Seq<char> {
        self.device_id@
    }

    /// Whether the client is connected to the gateway.
    pub closed spec fn connected(&self) -> bool {
        self.connected
    }

    /// The secret identity key.
    pub closed spec fn identity(&self) -> Seq<u8> {
        self.identity_key@
    }

    /// The secret signed pre-key.
    pub closed spec fn signed_pre(&self) -> Seq<u8> {
        self.signed_pre_key@
    }

    /// Number of one-time keys.
    pub closed spec fn one_time_keys(&self) -> nat {
        self.one_time_keys@.len()
    }

    /// The keys of the conversations.
    pub closed spec fn sessions(&self) -> Seq<(u128, DoubleRatchetSession)> {
        self.sessions@
    }

    /// A client of the server at `base_url` on device `device_id`, with
    /// the given secret keys. It has not logged in and is not connected.
    pub fn with_keys(base_url: &str, device_id: &str, identity_key: [u8; 32], signed_pre_key: [u8;
        32]) -> (client: MessagingClient)
        ensures
            client.base_url() == base_url@,
            client.ws_url() == socket_address(base_url@),
            client.device() == device_id@,
            client.token() is None,
            client.user() is None,
            !client.connected(),
            client.identity() == identity_key@,
            client.signed_pre() == signed_pre_key@,
            client.one_time_keys() == 0,
            client.sessions().len() == 0,
    {
        let host = replace_text(base_url, "http://", "");
        let mut ws_url = String::from_str("ws://");
        ws_url.append(host.as_str());
        ws_url.append("/ws");
        MessagingClient {
            base_url: String::from_str(base_url),
            ws_url,
            auth_token: None,
            user_id: None,
            device_id: String::from_str(device_id),
            connected: false,
            identity_key,
            signed_pre_key,
            one_time_keys: Vec::new(),
            sessions: Vec::new(),
        }
    }

    /// A client of the server at `base_url` on device `device_id`, with
    /// fresh random keys.
    pub fn new(base_url: &str, device_id: &str) -> (client: MessagingClient)
        ensures
            client.base_url() == base_url@,
            client.ws_url() == socket_address(base_url@),
            client.device() == device_id@,
            client.token() is None,
            client.user() is None,
            !client.connected(),
            client.one_time_keys() == 0,
            client.sessions().len() == 0,
    {
        let identity_key = ed25519_random_secret();
        let signed_pre_key = ed25519_random_secret();
        Self::with_keys(base_url, device_id, identity_key, signed_pre_key)
    }

    /// The access token, once the client has logged in.
    pub fn auth_token(&self) -> (token: &Option<String>)
        ensures
            *token == self.token(),
    {
        &self.auth_token
    }

    /// The user, once the client has logged in.
    pub fn user_id(&self) -> (user: Option<u128>)
        ensures
            user == self.user(),
    {
        self.user_id
    }

    /// Whether the client is connected.
    pub fn is_connected(&self) -> (connected: bool)
        ensures
            connected == self.connected(),
    {
        self.connected
    }

    /// Makes one hundred fresh one-time keys, in place of those that were
    /// there, and builds the request to register: the public halves of the
    /// identity key and of the signed pre-key in base64, 32 zero bytes where
    /// the key-agreement key would stand, and no one-time keys yet.
    pub fn register(&mut self, username: &str, email: &str, password: &str) -> (request:
        RegistrationRequest)
        ensures
            request.username@ == username@,
            request.email@ == email@,
            request.password@ == password@,
            request.public_key@ == base64_text(ed25519_public(old(self).identity())),
            request.dh_public_key@ == base64_text(Seq::new(32, |i: int| 0u8)),
            request.signed_pre_key@ == base64_text(ed25519_public(old(self).signed_pre())),
            request.one_time_keys@.len() == 0,
            final(self).one_time_keys() == ONE_TIME_KEYS_AT_REGISTRATION,
            final(self).identity() == old(self).identity(),
            final(self).signed_pre() == old(self).signed_pre(),
            final(self).token() == old(self).token(),
            final(self).user() == old(self).user(),
            final(self).connected() == old(self).connected(),
            final(self).ws_url() == old(self).ws_url(),
            final(self).device() == old(self).device(),
            final(self).sessions() == old(self).sessions(),
    {
        let mut keys: Vec<[u8; 32]> = Vec::new();
        let mut made: usize = 0;
        while made < ONE_TIME_KEYS_AT_REGISTRATION
            invariant
                made <= ONE_TIME_KEYS_AT_REGISTRATION,
                keys@.len() == made,
            decreases ONE_TIME_KEYS_AT_REGISTRATION - made,
        {
            keys.push(ed25519_random_secret());
            made = made + 1;
        }
        self.one_time_keys = keys;
        let identity_public = ed25519_public_key(&self.identity_key);
        let signed_pre_public = ed25519_public_key(&self.signed_pre_key);
        let zeros = [0u8; 32];
        assert(zeros@ =~= Seq::new(32, |i: int| 0u8));
        RegistrationRequest {
            username: String::from_str(username),
            email: String::from_str(email),
            password: String::from_str(password),
            public_key: base64_encode(identity_public.as_slice()),
            dh_public_key: base64_encode(zeros.as_slice()),
            signed_pre_key: base64_encode(signed_pre_public.as_slice()),
            one_time_keys: Vec::new(),
        }
    }

    /// Builds the request to log in on this device.
    pub fn login(&self, username: &str, password: &str, device_name: &str) -> (request:
        LoginRequest)
        ensures
            request.username@ == username@,
            request.password@ == password@,
            request.device_id@ == self.device(),
            request.device_name@ == device_name@,
    {
        LoginRequest {
            username: String::from_str(username),
            password: String::from_str(password),
            device_id: self.device_id.clone(),
            device_name: String::from_str(device_name),
        }
    }

    /// Takes in what the server answered to a registration or a login.
    /// `accepted` says whether the status was a success, `failure` is what
    /// to say where it was not, and `response` is the body, or why it
    /// could not be read. On success the client is logged in.
    pub fn accept_auth(
        &mut self,
        accepted: bool,
        failure: &str,
        response: Result<AuthResponse, String>,
    ) -> (result: Result<AuthResponse, SdkError>)
        ensures
            final(self).ws_url() == old(self).ws_url(),
            final(self).device() == old(self).device(),
            final(self).connected() == old(self).connected(),
            final(self).sessions() == old(self).sessions(),
            final(self).identity() == old(self).identity(),
            match result {
                Ok(r) => accepted && response == Ok::<AuthResponse, String>(r)
                    && final(self).token() == Some(r.access_token)
                    && final(self).user() == Some(r.user.id),
                Err(e) => final(self).token() == old(self).token() && final(self).user() == old(
                    self,
                ).user() && if !accepted {
                    e matches SdkError::AuthError(m) && m@ == failure@
                } else {
                    response matches Err(why) && e == SdkError::SerializationError(why)
                },
            },
    {
        if !accepted {
            return Err(SdkError::AuthError(String::from_str(failure)));
        }
        match response {
            Ok(r) => {
                self.auth_token = Some(r.access_token.clone());
                self.user_id = Some(r.user.id);
                Ok(r)
            },
            Err(why) => Err(SdkError::SerializationError(why)),
        }
    }

    /// Says where to connect, and notes that the client is connected.
    /// Somebody who has not logged in is refused.
    pub fn connect_websocket(&mut self) -> (result: Result<String, SdkError>)
        ensures
            final(self).token() == old(self).token(),
            final(self).user() == old(self).user(),
            final(self).ws_url() == old(self).ws_url(),
            final(self).device() == old(self).device(),
            final(self).sessions() == old(self).sessions(),
            match result {
                Ok(url) => old(self).token() matches Some(t) && url@ == connect_address(
                    old(self).ws_url(),
                    t@,
                    old(self).device(),
                ) && final(self).connected(),
                Err(e) => old(self).token() is None && final(self).connected() == old(
                    self,
                ).connected() && (e matches SdkError::InvalidState(m) && m@
                    == not_authenticated()),
            },
    {
        match &self.auth_token {
            Some(token) => {
                let mut url = self.ws_url.clone();
                url.append("?token=");
                url.append(token.as_str());
                url.append("&device_id=");
                url.append(self.device_id.as_str());
                self.connected = true;
                Ok(url)
            },
            None => Err(SdkError::InvalidState(String::from_str("Not authenticated"))),
        }
    }

    /// Notes that the connection has ended.
    pub fn disconnected(&mut self)
        ensures
            !final(self).connected(),
            final(self).token() == old(self).token(),
            final(self).user() == old(self).user(),
            final(self).ws_url() == old(self).ws_url(),
            final(self).device() == old(self).device(),
            final(self).sessions() == old(self).sessions(),
    {
        self.connected = false;
    }

    /// Takes in the keys of a conversation, in place of those that the
    /// conversation had.
    pub fn install_session(&mut self, conversation_id: u128, session: DoubleRatchetSession)
        ensures
            ({
                let k = session_index(old(self).sessions(), conversation_id);
                final(self).sessions() == if k < old(self).sessions().len() {
                    old(self).sessions().update(k, (conversation_id, session))
                } else {
                    old(self).sessions().push((conversation_id, session))
                }
            }),
            final(self).token() == old(self).token(),
            final(self).user() == old(self).user(),
            final(self).connected() == old(self).connected(),
            final(self).ws_url() == old(self).ws_url(),
            final(self).device() == old(self).device(),
    {
        let k = self.find_session(conversation_id);
        if k < self.sessions.len() {
            self.sessions.set(k, (conversation_id, session));
        } else {
            self.sessions.push((conversation_id, session));
        }
    }

    fn find_session(&self, conversation_id: u128) -> (k: usize)
        ensures
            k == session_index(self.sessions(), conversation_id),
            k <= self.sessions().len(),
            k < self.sessions().len() ==> self.sessions()[k as int].0 == conversation_id,
    {
        let mut i: usize = 0;
        proof {
            assert(self.sessions@.skip(0) =~= self.sessions@);
        }
        while i < self.sessions.len()
            invariant
                i <= self.sessions.len(),
                session_index(self.sessions@, conversation_id) == i + session_index(
                    self.sessions@.skip(i as int),
                    conversation_id,
                ),
            decreases self.sessions.len() - i,
        {
            assert(self.sessions@.skip(i as int)[0] == self.sessions@[i as int]);
            if self.sessions[i].0 == conversation_id {
                return i;
            }
            proof {
                assert(self.sessions@.skip(i as int).skip(1) =~= self.sessions@.skip(
                    i as int + 1,
                ));
            }
            i = i + 1;
        }
        i
    }

    /// Builds the frame of a message with the given id, written at `now`.
    pub fn prepare_message(
        &self,
        conversation_id: u128,
        message_id: u128,
        content: &[u8],
        reply_to: Option<u128>,
        now: i64,
    ) -> (result: Result<ClientMessage, SdkError>)
        ensures
            ({
                let k = session_index(self.sessions(), conversation_id);
                if self.user() is None {
                    result matches Err(e) && (e matches SdkError::InvalidState(m) && m@
                        == not_authenticated())
                } else if k >= self.sessions().len() {
                    result matches Err(e) && (e matches SdkError::InvalidState(m) && m@
                        == no_session())
                } else {
                    let sealed = chacha20_poly1305_sealed(
                        self.sessions()[k].1.sending_chain_key@,
                        Seq::new(12, |i: int| 0u8),
                        content@,
                    );
                    match sealed {
                        None => result matches Err(e) && (e matches SdkError::EncryptionError(m)
                            && m@ == cipher_failed()),
                        Some(c) => if !self.connected() {
                            result matches Err(e) && (e matches SdkError::InvalidState(m) && m@
                                == not_connected())
                        } else {
                            result matches Ok(msg) && msg.conversation_id == conversation_id
                                && msg.message_id == message_id && msg.content@ == c && msg.nonce@
                                == Seq::new(12, |i: int| 0u8) && msg.reply_to == reply_to
                                && msg.timestamp == now
                        },
                    }
                }
            }),
    {
        if self.user_id.is_none() {
            return Err(SdkError::InvalidState(String::from_str("Not authenticated")));
        }
        let k = self.find_session(conversation_id);
        if k >= self.sessions.len() {
            return Err(
                SdkError::InvalidState(String::from_str("No encryption session for conversation")),
            );
        }
        let (content, nonce) = match self.sessions[k].1.encrypt(content) {
            Some(out) => out,
            None => {
                return Err(SdkError::EncryptionError(String::from_str("aead::Error")));
            },
        };
        if !self.connected {
            return Err(SdkError::InvalidState(String::from_str("WebSocket not connected")));
        }
        Ok(ClientMessage { conversation_id, message_id, content, nonce, reply_to, timestamp: now })
    }

    /// Builds the frame of a new message, written at `now`, under an id
    /// made up at random.
    pub fn send_message(
        &self,
        conversation_id: u128,
        content: &[u8],
        reply_to: Option<u128>,
        now: i64,
    ) -> (result: Result<ClientMessage, SdkError>)
        ensures
            result matches Ok(msg) ==> msg.conversation_id == conversation_id && msg.reply_to
                == reply_to && msg.timestamp == now && msg.nonce@ == Seq::new(12, |i: int| 0u8)
                && Some(msg.content@) == chacha20_poly1305_sealed(
                self.sessions()[session_index(
                    self.sessions(),
                    conversation_id,
                )].1.sending_chain_key@,
                Seq::new(12, |i: int| 0u8),
                content@,
            ),
            result is Ok <==> self.user() is Some && self.connected() && session_index(
                self.sessions(),
                conversation_id,
            ) < self.sessions().len() && chacha20_poly1305_sealed(
                self.sessions()[session_index(
                    self.sessions(),
                    conversation_id,
                )].1.sending_chain_key@,
                Seq::new(12, |i: int| 0u8),
                content@,
            ) is Some,
    {
        let message_id = new_id();
        self.prepare_message(conversation_id, message_id, content, reply_to, now)
    }

    /// Builds the frame that tells of the client's presence at `now`.
    pub fn update_presence(&self, status: &str, custom_status: Option<&str>, now: i64) -> (result:
        Result<WsMessage, SdkError>)
        ensures
            match result {
                Ok(frame) => self.connected() && (frame matches WsMessage::Presence(p) && p.status@
                    == status@ && p.last_active == now && match custom_status {
                    Some(c) => p.custom_status matches Some(d) && d@ == c@,
                    None => p.custom_status is None,
                }),
                Err(e) => !self.connected() && (e matches SdkError::InvalidState(m) && m@
                    == not_connected()),
            },
    {
        if !self.connected {
            return Err(SdkError::InvalidState(String::from_str("WebSocket not connected")));
        }
        let custom = match custom_status {
            Some(c) => Some(String::from_str(c)),
            None => None,
        };
        Ok(
            WsMessage::Presence(
                PresenceUpdate {
                    status: String::from_str(status),
                    custom_status: custom,
                    last_active: now,
                },
            ),
        )
    }

    /// Builds the frame that tells that the user is typing, or has
    /// stopped.
    pub fn send_typing_indicator(&self, conversation_id: u128, is_typing: bool) -> (result: Result<
        WsMessage,
        SdkError,
    >)
        ensures
            match result {
                Ok(frame) => self.connected() && (frame matches WsMessage::Typing(t) && t == (
                    TypingIndicator { conversation_id, is_typing })),
                Err(e) => !self.connected() && (e matches SdkError::InvalidState(m) && m@
                    == not_connected()),
            },
    {
        if !self.connected {
            return Err(SdkError::InvalidState(String::from_str("WebSocket not connected")));
        }
        Ok(WsMessage::Typing(TypingIndicator { conversation_id, is_typing }))
    }

    /// Builds the request to found an encrypted group.
    pub fn create_group(&self, name: &str, user_ids: Vec<u128>) -> (request: CreateGroupRequest)
        ensures
            request.name@ == name@,
            request.user_ids == user_ids,
            request.is_encrypted,
    {
        CreateGroupRequest { name: String::from_str(name), user_ids, is_encrypted: true }
    }

    /// Takes in what the server answered to the founding of a group:
    /// whether the group was created, what to say where it was not, and the
    /// body, or why it could not be read.
    pub fn accept_group(
        created: bool,
        failure: &str,
        response: Result<GroupResponse, String>,
    ) -> (result: Result<u128, SdkError>)
        ensures
            match result {
                Ok(id) => created && (response matches Ok(g) && g.id == id),
                Err(e) => if !created {
                    e matches SdkError::NetworkError(m) && m@ == failure@
                } else {
                    response matches Err(why) && e == SdkError::SerializationError(why)
                },
            },
    {
        if !created {
            return Err(SdkError::NetworkError(String::from_str(failure)));
        }
        match response {
            Ok(g) => Ok(g.id),
            Err(why) => Err(SdkError::SerializationError(why)),
        }
    }

    /// What reaches the application of a frame from the gateway: messages
    /// and typing notices do; changes of presence go to the handlers only.
    pub fn receive_message(frame: WsMessage) -> (incoming: Option<IncomingMessage>)
        ensures
            match frame {
                WsMessage::Message(m) => incoming matches Some(i) && (
                i matches IncomingMessage::ChatMessage(n) && n == m),
                WsMessage::Typing(t) => incoming matches Some(i) && (
                i matches IncomingMessage::TypingIndicator(u) && u == t),
                _ => incoming is None,
            },
    {
        match frame {
            WsMessage::Message(m) => Some(IncomingMessage::ChatMessage(m)),
            WsMessage::Typing(t) => Some(IncomingMessage::TypingIndicator(t)),
            _ => None,
        }
    }

    /// The frame that keeps the connection alive, and the seconds between
    /// two of them.
    pub fn start_heartbeat() -> (out: (WsMessage, u64))
        ensures
            out.0 is Heartbeat,
            out.1 == CLIENT_HEARTBEAT_SECS,
    {
        (WsMessage::Heartbeat, CLIENT_HEARTBEAT_SECS)
    }

    /// Adds a handler behind those that are there.
    pub fn add_message_handler<H: MessageHandler>(handlers: &mut Vec<H>, handler: H)
        ensures
            final(handlers)@ == old(handlers)@.push(handler),
    {
        handlers.push(handler);
    }

    /// Adds a handler behind those that are there.
    pub fn add_presence_handler<H: PresenceHandler>(handlers: &mut Vec<H>, handler: H)
        ensures
            final(handlers)@ == old(handlers)@.push(handler),
    {
        handlers.push(handler);
    }

    /// Tells every handler of a message, in the order in which they were
    /// added.
    pub fn notify_message<H: MessageHandler>(handlers: &Vec<H>, message: &ClientMessage) {
        let mut i: usize = 0;
        while i < handlers.len()
            invariant
                i <= handlers.len(),
            decreases handlers.len() - i,
        {
            handlers[i].on_message(message);
            i = i + 1;
        }
    }

    /// Tells every handler of a change of presence, in the order in which
    /// they were added.
    pub fn notify_presence<H: PresenceHandler>(handlers: &Vec<H>, presence: &PresenceUpdate) {
        let mut i: usize = 0;
        while i < handlers.len()
            invariant
                i <= handlers.len(),
            decreases handlers.len() - i,
        {
            handlers[i].on_presence_update(presence);
            i = i + 1;
        }
    }
}

} // verus!
