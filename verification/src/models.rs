//! The data model shared by every service.
//!
//! Identifiers are 128-bit UUID values held as `u128`; instants are whole
//! seconds since the Unix epoch held as `i64`.

use vstd::prelude::*;

verus! {

/// A registered account. Accounts are never removed, only deactivated.
#[derive(Debug)]
pub struct User {
    pub id: u128,
    pub username: String,
    pub email: String,
    pub created_at: i64,
    pub updated_at: i64,
    pub is_active: bool,
    pub is_verified: bool,
    pub last_seen: Option<i64>,
}

/// Shortest user name that registration accepts, in characters.
pub const USERNAME_MIN_LEN: usize = 3;

/// Longest user name that registration accepts, in characters.
pub const USERNAME_MAX_LEN: usize = 32;

impl User {
    /// Whether the user name has an acceptable length.
    pub open spec fn username_ok(&self) -> bool {
        USERNAME_MIN_LEN <= self.username@.len() <= USERNAME_MAX_LEN
    }

    /// Checks the length rule on the user name.
    pub fn validate(&self) -> (ok: bool)
        ensures
            ok == self.username_ok(),
    {
        let n = self.username.as_str().unicode_len();
        USERNAME_MIN_LEN <= n && n <= USERNAME_MAX_LEN
    }
}

#[derive(Debug, Clone, Copy, PartialEq, Eq, Structural)]
pub enum MessageType {
    Text,
    Image,
    Video,
    File,
    System,
}

/// A stored message. The content is ciphertext produced by the client.
#[derive(Debug)]
pub struct Message {
    pub id: u128,
    pub conversation_id: u128,
    pub sender_id: u128,
    pub message_type: MessageType,
    pub content: Vec<u8>,
    pub nonce: Vec<u8>,
    pub timestamp: i64,
    pub reply_to: Option<u128>,
    pub edited: bool,
    pub deleted: bool,
}

#[derive(Debug, Clone, Copy, PartialEq, Eq, Structural)]
pub enum ConversationType {
    DirectMessage,
    Group,
    Channel,
}

#[derive(Debug)]
pub struct Conversation {
    pub id: u128,
    pub conversation_type: ConversationType,
    pub name: Option<String>,
    pub avatar_url: Option<String>,
    pub created_at: i64,
    pub last_message_at: Option<i64>,
    pub is_encrypted: bool,
}

impl Conversation {
    /// The value of `last_message_at` after a message received at `at` has
    /// been recorded: the index only ever moves forward.
    pub open spec fn advanced(last: Option<i64>, at: i64) -> Option<i64> {
        match last {
            Some(t) => if at > t { Some(at) } else { Some(t) },
            None => Some(at),
        }
    }

    /// Records that a message was received at `at`, keeping the newest instant.
    pub fn touch(&mut self, at: i64)
        ensures
            final(self).last_message_at == Self::advanced(old(self).last_message_at, at),
            final(self).id == old(self).id,
            final(self).conversation_type == old(self).conversation_type,
            final(self).name == old(self).name,
            final(self).avatar_url == old(self).avatar_url,
            final(self).created_at == old(self).created_at,
            final(self).is_encrypted == old(self).is_encrypted,
    {
        let next = match self.last_message_at {
            Some(t) => if at > t { at } else { t },
            None => at,
        };
        self.last_message_at = Some(next);
    }
}

#[derive(Debug, Clone, Copy, PartialEq, Eq, Structural)]
pub enum GroupRole {
    Owner,
    Admin,
    Member,
    Guest,
}

#[derive(Debug, Clone, Copy, PartialEq, Eq, Structural)]
pub enum Permission {
    SendMessages,
    DeleteMessages,
    AddMembers,
    RemoveMembers,
    ChangeGroupInfo,
    PinMessages,
    MentionEveryone,
}

/// One user's membership of one conversation.
#[derive(Debug)]
pub struct GroupMember {
    pub user_id: u128,
    pub group_id: u128,
    pub role: GroupRole,
    pub joined_at: i64,
    pub permissions: Vec<Permission>,
}

impl GroupMember {
    /// Whether `p` is among the permissions granted to this member.
    pub open spec fn grants(&self, p: Permission) -> bool {
        self.permissions@.contains(p)
    }

    /// Looks `p` up in the member's permissions.
    pub fn has_permission(&self, p: Permission) -> (found: bool)
        ensures
            found == self.grants(p),
    {
        let mut i: usize = 0;
        while i < self.permissions.len()
            invariant
                i <= self.permissions.len(),
                forall|j: int| 0 <= j < i ==> self.permissions@[j] != p,
            decreases self.permissions.len() - i,
        {
            if self.permissions[i] == p {
                return true;
            }
            i = i + 1;
        }
        false
    }
}

/// Ratchet state that a client parks with the server. Every key is already
/// encrypted by the client; the server only stores the bytes.
#[derive(Debug)]
pub struct EncryptionSession {
    pub session_id: u128,
    pub user_id: u128,
    pub peer_id: u128,
    pub root_key: Vec<u8>,
    pub sending_chain_key: Vec<u8>,
    pub receiving_chain_key: Vec<u8>,
    pub sending_ratchet_key: Vec<u8>,
    pub receiving_ratchet_key: Vec<u8>,
    pub prev_sending_chain_length: u32,
    pub prev_receiving_chain_length: u32,
    pub message_number: u32,
    pub created_at: i64,
    pub updated_at: i64,
}

#[derive(Debug, Clone, Copy, PartialEq, Eq, Structural)]
pub enum ReportTargetType {
    User,
    Message,
    Group,
}

#[derive(Debug, Clone, Copy, PartialEq, Eq, Structural)]
pub enum ReportReason {
    Spam,
    Harassment,
    HateSpeech,
    Nudity,
    Violence,
    Impersonation,
    Other,
}

#[derive(Debug, Clone, Copy, PartialEq, Eq, Structural)]
pub enum ReportStatus {
    Pending,
    Investigating,
    Resolved,
    Dismissed,
}

/// A complaint filed by one user against a user, a message or a group.
#[derive(Debug)]
pub struct Report {
    pub id: u128,
    pub reporter_id: u128,
    pub target_id: u128,
    pub target_type: ReportTargetType,
    pub reason: ReportReason,
    pub description: Option<String>,
    pub status: ReportStatus,
    pub created_at: i64,
    pub resolved_at: Option<i64>,
    pub resolved_by: Option<u128>,
}

impl ReportTargetType {
    /// The name of the value.
    pub open spec fn spec_name(self) -> Seq<char> {
        match self {
            ReportTargetType::User => "User"@,
            ReportTargetType::Message => "Message"@,
            ReportTargetType::Group => "Group"@,
        }
    }

    /// The name under which the kind of target is stored and reported.
    pub fn name(&self) -> (s: &'static str)
        ensures
            s@ == self.spec_name(),
    {
        match self {
            ReportTargetType::User => "User",
            ReportTargetType::Message => "Message",
            ReportTargetType::Group => "Group",
        }
    }
}

impl ReportReason {
    /// The name of the value.
    pub open spec fn spec_name(self) -> Seq<char> {
        match self {
            ReportReason::Spam => "Spam"@,
            ReportReason::Harassment => "Harassment"@,
            ReportReason::HateSpeech => "HateSpeech"@,
            ReportReason::Nudity => "Nudity"@,
            ReportReason::Violence => "Violence"@,
            ReportReason::Impersonation => "Impersonation"@,
            ReportReason::Other => "Other"@,
        }
    }

    /// The name under which the reason is stored and reported.
    pub fn name(&self) -> (s: &'static str)
        ensures
            s@ == self.spec_name(),
    {
        match self {
            ReportReason::Spam => "Spam",
            ReportReason::Harassment => "Harassment",
            ReportReason::HateSpeech => "HateSpeech",
            ReportReason::Nudity => "Nudity",
            ReportReason::Violence => "Violence",
            ReportReason::Impersonation => "Impersonation",
            ReportReason::Other => "Other",
        }
    }
}

impl ReportStatus {
    /// The name of the value.
    pub open spec fn spec_name(self) -> Seq<char> {
        match self {
            ReportStatus::Pending => "Pending"@,
            ReportStatus::Investigating => "Investigating"@,
            ReportStatus::Resolved => "Resolved"@,
            ReportStatus::Dismissed => "Dismissed"@,
        }
    }

    /// The name under which the status is stored and reported.
    pub fn name(&self) -> (s: &'static str)
        ensures
            s@ == self.spec_name(),
    {
        match self {
            ReportStatus::Pending => "Pending",
            ReportStatus::Investigating => "Investigating",
            ReportStatus::Resolved => "Resolved",
            ReportStatus::Dismissed => "Dismissed",
        }
    }
}

} // verus!
