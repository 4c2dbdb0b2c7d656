//! Turns decoded push events into store mutations, and tells the caller what
//! else the event asks of the surrounding session.
use vstd::prelude::*;
use crate::models::{Chat, ChatMessage, PinnedMessageData, WsMessageType};
use crate::ordering::{insert_message, pin_messages, remove_id, replace_message, stamped};
use crate::store::{MessageStore, StoreState};

verus! {

/// A push event, decoded.
#[derive(Clone, Debug, PartialEq)]
pub enum ChatEvent {
    ReceiveMessage(ChatMessage),
    MessageUpdated(ChatMessage),
    MessageDeleted(u128),
    MessagePinned(PinnedMessageData),
    ChatUpdated(Chat),
    ChatDeleted,
    MemberUpdated,
    MemberDeleted,
    /// An event whose payload did not have the shape its kind declares.
    Malformed(WsMessageType),
    /// An event of a kind this client does not know.
    Unknown,
}

/// What an event asks of the session beyond the store mutation.
#[derive(Clone, Debug, PartialEq)]
pub enum Reaction {
    /// Nothing beyond the store mutation.
    Applied,
    /// The message being edited locally was replaced: leave edit mode.
    CancelEdit,
    /// A pin state changed: a list of pinned messages is out of date.
    PinsChanged,
    /// New chat metadata for the chat-metadata collaborator.
    ChatChanged(Chat),
    /// The chat is gone: close the view and discard the store.
    Teardown,
    /// A membership event, for the membership collaborator.
    MembersChanged,
    /// The event could not be used; report it and go on.
    Dropped,
}

/// The store after an event.
pub open spec fn reconciled(st: StoreState, ev: ChatEvent) -> StoreState {
    let user = st.current_user;
    let msgs = st.messages;
    StoreState {
        messages: match ev {
            ChatEvent::ReceiveMessage(m) => insert_message(msgs, stamped(m, user)),
            ChatEvent::MessageUpdated(m) => replace_message(msgs, stamped(m, user)),
            ChatEvent::MessageDeleted(id) => remove_id(msgs, id),
            ChatEvent::MessagePinned(d) => pin_messages(msgs, d.message_id, d.is_pinned, d.updated_at),
            ChatEvent::ChatUpdated(c) => match c.last_message {
                Some(m) => insert_message(msgs, stamped(m, user)),
                None => msgs,
            },
            _ => msgs,
        },
        ..st
    }
}

/// What the session is told after an event, given the message being edited locally.
pub open spec fn reaction_to(ev: ChatEvent, editing: Option<u128>) -> Reaction {
    match ev {
        ChatEvent::ReceiveMessage(_) => Reaction::Applied,
        ChatEvent::MessageUpdated(m) => if editing == Some(m.id) {
            Reaction::CancelEdit
        } else {
            Reaction::Applied
        },
        ChatEvent::MessageDeleted(_) => Reaction::Applied,
        ChatEvent::MessagePinned(_) => Reaction::PinsChanged,
        ChatEvent::ChatUpdated(c) => Reaction::ChatChanged(c),
        ChatEvent::ChatDeleted => Reaction::Teardown,
        ChatEvent::MemberUpdated => Reaction::MembersChanged,
        ChatEvent::MemberDeleted => Reaction::MembersChanged,
        ChatEvent::Malformed(_) => Reaction::Dropped,
        ChatEvent::Unknown => Reaction::Dropped,
    }
}

impl MessageStore {
    /// Applies one push event. `editing` is the message being edited locally, if any.
    /// A piggy-backed last message of a chat update is taken in as a received
    /// message, with the same duplicate guard.
    pub fn apply_event(&mut self, event: ChatEvent, editing: Option<u128>) -> (r: Reaction)
        requires
            old(self).wf(),
        ensures
            final(self).wf(),
            final(self)@ == reconciled(old(self)@, event),
            r == reaction_to(event, editing),
    {
        match event {
            ChatEvent::ReceiveMessage(m) => {
                self.apply_insert(m);
                Reaction::Applied
            },
            ChatEvent::MessageUpdated(m) => {
                let cancel = match editing {
                    Some(e) => e == m.id,
                    None => false,
                };
                self.apply_update(m);
                if cancel {
                    Reaction::CancelEdit
                } else {
                    Reaction::Applied
                }
            },
            ChatEvent::MessageDeleted(id) => {
                self.apply_delete(id);
                Reaction::Applied
            },
            ChatEvent::MessagePinned(d) => {
                self.apply_pin_change(d.message_id, d.is_pinned, d.updated_at);
                Reaction::PinsChanged
            },
            ChatEvent::ChatUpdated(c) => {
                match &c.last_message {
                    Some(m) => self.apply_insert(m.duplicate()),
                    None => {},
                }
                Reaction::ChatChanged(c)
            },
            ChatEvent::ChatDeleted => Reaction::Teardown,
            ChatEvent::MemberUpdated => Reaction::MembersChanged,
            ChatEvent::MemberDeleted => Reaction::MembersChanged,
            ChatEvent::Malformed(_) => Reaction::Dropped,
            ChatEvent::Unknown => Reaction::Dropped,
        }
    }
}

} // verus!
