//! Verified core of an end-to-end encrypted, multi-device messaging platform.
//!
//! Clients exchange ciphertext; the server never sees plaintext. The library
//! holds the rules of the three parts that the platform's guarantees rest on:
//!
//! * the session authority ([`auth`], [`sessions`]): accounts, device-bound
//!   sessions, token rotation and revocation;
//! * the gateway hub ([`gateway`], [`registry`], [`presence`]): who is
//!   connected, what a frame from a client leads to, and to whom a persisted
//!   message is delivered;
//! * the message processor ([`processor`], [`conversation`], [`guarantees`]):
//!   the log of a conversation, inboxes, delivery records, and what is
//!   published after persistence.
//!
//! Around them stand the data model ([`models`], [`envelope`], [`errors`]),
//! the bus as the services see it ([`bus`]), identifiers ([`ids`]), the
//! moderation and encryption services ([`moderation`], [`encryption`]), the
//! cryptography shared with clients ([`crypto`], [`client_crypto`],
//! [`primitives`]) and the client itself ([`client`]).
//!
//! Nothing here touches a socket, a store or a clock. The services hand in
//! plain values, the current instant among them, and carry out what the
//! library decides.

pub mod errors;
pub mod models;
pub mod text;
pub mod ids;
pub mod envelope;
pub mod bus;
pub mod conversation;
pub mod guarantees;
pub mod processor;
pub mod sessions;
pub mod auth;
pub mod registry;
pub mod gateway;
pub mod presence;
pub mod moderation;
pub mod encryption;
pub mod primitives;
pub mod crypto;
pub mod client_crypto;
pub mod client;
