//! Plain data types shared by the store, the event reconciler and the
//! presentation projection. Identifiers are 128-bit values and timestamps are
//! milliseconds since the Unix epoch (UTC).
use vstd::prelude::*;

verus! {

/// The kind of a message: an ordinary user message (`Regular`), or a system notice.
#[derive(Clone, Copy, Debug, PartialEq, Eq, Structural)]
pub enum SystemMessageType {
    Regular,
    UserJoined,
    UserRejoined,
    UserLeft,
    ChatCreated,
    ChatUpdated,
}

impl SystemMessageType {
    /// Whether this is a system notice rather than a message written by a user.
    pub fn is_system(&self) -> (r: bool)
        ensures
            r == !(*self is Regular),
    {
        match self {
            SystemMessageType::Regular => false,
            _ => true,
        }
    }
}

impl Default for SystemMessageType {
    fn default() -> (r: Self)
        ensures
            r is Regular,
    {
        SystemMessageType::Regular
    }
}

/// The role of a member inside a group chat.
#[derive(Clone, Copy, Debug, PartialEq, Eq, Structural)]
pub enum ChatMemberRole {
    Member,
    Administrator,
    Owner,
}

/// Whether a chat is a one-to-one conversation or a group.
#[derive(Clone, Copy, Debug, PartialEq, Eq, Structural)]
pub enum ChatType {
    Personal,
    Group,
}

/// The declared kind of a push event.
#[derive(Clone, Copy, Debug, PartialEq, Eq, Structural)]
pub enum WsMessageType {
    ReceiveMessage,
    MessageUpdated,
    MessageDeleted,
    MessagePinned,
    MemberUpdated,
    MemberDeleted,
    ChatUpdated,
    ChatDeleted,
}

/// A failure of the request/response collaborator.
#[derive(Clone, Debug, PartialEq)]
pub enum ApiError {
    Unauthorized,
    Network(String),
    Parsing(String),
    Server(String),
    NotFound,
}

/// The body of a request that renames a chat.
#[derive(Clone, Debug, PartialEq)]
pub struct UpdateChatRequest {
    pub new_name: String,
}

/// Copies an optional string; the copy equals its source.
pub fn copy_text(s: &Option<String>) -> (r: Option<String>)
    ensures
        r == *s,
{
    match s {
        Some(t) => Some(t.clone()),
        None => None,
    }
}

/// One chat message. `created_at` is the authoritative ordering key;
/// `is_my_message` is derived when the message is taken in, never transmitted.
#[derive(Clone, Debug, PartialEq)]
pub struct ChatMessage {
    pub id: u128,
    pub sender_id: Option<u128>,
    pub sender_user_name: Option<String>,
    pub sender_first_name: Option<String>,
    pub sender_last_name: Option<String>,
    pub sender_is_online: Option<bool>,
    pub system_message_type: SystemMessageType,
    pub message: String,
    pub is_edited: bool,
    pub is_pinned: bool,
    pub created_at: i64,
    pub updated_at: Option<i64>,
    pub pinned_at: Option<i64>,
    pub is_my_message: bool,
}

impl ChatMessage {
    /// A field-by-field copy of this message.
    pub fn duplicate(&self) -> (r: ChatMessage)
        ensures
            r == *self,
    {
        ChatMessage {
            id: self.id,
            sender_id: self.sender_id,
            sender_user_name: copy_text(&self.sender_user_name),
            sender_first_name: copy_text(&self.sender_first_name),
            sender_last_name: copy_text(&self.sender_last_name),
            sender_is_online: self.sender_is_online,
            system_message_type: self.system_message_type,
            message: self.message.clone(),
            is_edited: self.is_edited,
            is_pinned: self.is_pinned,
            created_at: self.created_at,
            updated_at: self.updated_at,
            pinned_at: self.pinned_at,
            is_my_message: self.is_my_message,
        }
    }
}

/// Chat metadata, as carried by a chat-update event.
#[derive(Clone, Debug, PartialEq)]
pub struct Chat {
    pub id: u128,
    pub name: Option<String>,
    pub last_message: Option<ChatMessage>,
    pub chat_type: ChatType,
    pub created_at: i64,
    pub member_count: i32,
}

/// The payload of a pin/unpin event.
#[derive(Clone, Copy, Debug, PartialEq, Eq, Structural)]
pub struct PinnedMessageData {
    pub message_id: u128,
    pub is_pinned: bool,
    pub updated_at: Option<i64>,
}

} // verus!
