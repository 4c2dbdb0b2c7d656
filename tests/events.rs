use chat_sync::models::{Chat, ChatMessage, ChatType, PinnedMessageData, SystemMessageType, WsMessageType};
use chat_sync::reconcile::{ChatEvent, Reaction};
use chat_sync::store::MessageStore;

fn msg(n: u128, sender: u128) -> ChatMessage {
    ChatMessage {
        id: n,
        sender_id: Some(sender),
        sender_user_name: Some("bob".to_string()),
        sender_first_name: Some("Bob".to_string()),
        sender_last_name: Some("Stone".to_string()),
        sender_is_online: Some(false),
        system_message_type: SystemMessageType::Regular,
        message: format!("text {}", n),
        is_edited: false,
        is_pinned: false,
        created_at: 10_000 + (n as i64),
        updated_at: None,
        pinned_at: None,
        is_my_message: false,
    }
}

fn chat_with(last: Option<ChatMessage>) -> Chat {
    Chat {
        id: 77,
        name: Some("team".to_string()),
        last_message: last,
        chat_type: ChatType::Group,
        created_at: 0,
        member_count: 3,
    }
}

fn ids(store: &MessageStore) -> Vec<u128> {
    store.messages().iter().map(|m| m.id).collect()
}

#[test]
fn receive_twice_keeps_one_entry() {
    let mut store = MessageStore::new(Some(5));
    assert_eq!(store.apply_event(ChatEvent::ReceiveMessage(msg(1, 5)), None), Reaction::Applied);
    assert_eq!(store.apply_event(ChatEvent::ReceiveMessage(msg(1, 5)), None), Reaction::Applied);
    assert_eq!(ids(&store), vec![1]);
    assert!(store.messages()[0].is_my_message);
}

#[test]
fn chat_update_last_message_converges_with_receive() {
    let mut store = MessageStore::new(None);
    store.apply_event(ChatEvent::ReceiveMessage(msg(1, 2)), None);
    let r = store.apply_event(ChatEvent::ChatUpdated(chat_with(Some(msg(1, 2)))), None);
    assert_eq!(r, Reaction::ChatChanged(chat_with(Some(msg(1, 2)))));
    assert_eq!(ids(&store), vec![1]);
    store.apply_event(ChatEvent::ChatUpdated(chat_with(Some(msg(2, 2)))), None);
    assert_eq!(ids(&store), vec![1, 2]);
    store.apply_event(ChatEvent::ChatUpdated(chat_with(None)), None);
    assert_eq!(ids(&store), vec![1, 2]);
}

#[test]
fn update_of_edited_message_cancels_edit() {
    let mut store = MessageStore::new(None);
    store.apply_event(ChatEvent::ReceiveMessage(msg(1, 2)), None);
    store.apply_event(ChatEvent::ReceiveMessage(msg(2, 2)), None);
    let mut edited = msg(1, 2);
    edited.message = "new".to_string();
    assert_eq!(store.apply_event(ChatEvent::MessageUpdated(edited.clone()), Some(1)), Reaction::CancelEdit);
    assert_eq!(store.messages()[0].message, "new");
    assert_eq!(store.apply_event(ChatEvent::MessageUpdated(edited), Some(2)), Reaction::Applied);
}

#[test]
fn update_outside_window_is_ignored() {
    let mut store = MessageStore::new(None);
    store.apply_event(ChatEvent::ReceiveMessage(msg(1, 2)), None);
    assert_eq!(store.apply_event(ChatEvent::MessageUpdated(msg(9, 2)), None), Reaction::Applied);
    assert_eq!(ids(&store), vec![1]);
}

#[test]
fn delete_and_pin_events() {
    let mut store = MessageStore::new(None);
    store.apply_event(ChatEvent::ReceiveMessage(msg(1, 2)), None);
    store.apply_event(ChatEvent::ReceiveMessage(msg(2, 2)), None);
    let pin = PinnedMessageData { message_id: 2, is_pinned: true, updated_at: Some(50) };
    assert_eq!(store.apply_event(ChatEvent::MessagePinned(pin), None), Reaction::PinsChanged);
    assert!(store.messages()[1].is_pinned);
    assert_eq!(store.messages()[1].pinned_at, Some(50));
    assert_eq!(store.apply_event(ChatEvent::MessageDeleted(1), None), Reaction::Applied);
    assert_eq!(ids(&store), vec![2]);
}

#[test]
fn session_and_unusable_events() {
    let mut store = MessageStore::new(None);
    store.apply_event(ChatEvent::ReceiveMessage(msg(1, 2)), None);
    assert_eq!(store.apply_event(ChatEvent::ChatDeleted, None), Reaction::Teardown);
    assert_eq!(store.apply_event(ChatEvent::MemberUpdated, None), Reaction::MembersChanged);
    assert_eq!(store.apply_event(ChatEvent::MemberDeleted, None), Reaction::MembersChanged);
    assert_eq!(
        store.apply_event(ChatEvent::Malformed(WsMessageType::ReceiveMessage), None),
        Reaction::Dropped
    );
    assert_eq!(store.apply_event(ChatEvent::Unknown, None), Reaction::Dropped);
    assert_eq!(ids(&store), vec![1]);
}

#[test]
fn system_type_classification() {
    assert!(!SystemMessageType::Regular.is_system());
    assert!(SystemMessageType::UserLeft.is_system());
    assert_eq!(SystemMessageType::default(), SystemMessageType::Regular);
}
