use chat_sync::models::{ChatMessage, SystemMessageType};
use chat_sync::store::{MessageStore, PAGE_SIZE};

const MINUTE: i64 = 60_000;

fn msg(n: u128) -> ChatMessage {
    ChatMessage {
        id: n,
        sender_id: Some(7),
        sender_user_name: Some("ann".to_string()),
        sender_first_name: None,
        sender_last_name: None,
        sender_is_online: Some(true),
        system_message_type: SystemMessageType::Regular,
        message: format!("message {}", n),
        is_edited: false,
        is_pinned: false,
        created_at: 1_700_000_000_000 + (n as i64) * MINUTE,
        updated_at: None,
        pinned_at: None,
        is_my_message: false,
    }
}

fn newest_first(lo: u128, hi: u128) -> Vec<Option<ChatMessage>> {
    (lo..=hi).rev().map(|n| Some(msg(n))).collect()
}

fn ids(store: &MessageStore) -> Vec<u128> {
    store.messages().iter().map(|m| m.id).collect()
}

#[test]
fn initialize_orders_page_chronologically() {
    let mut store = MessageStore::new(Some(1));
    store.initialize(newest_first(1, 5));
    assert_eq!(ids(&store), vec![1, 2, 3, 4, 5]);
    assert!(!store.has_more_older());
    assert_eq!(store.next_page(), 2);
    assert_eq!(store.generation(), 1);
}

#[test]
fn initialize_full_page_keeps_history_open() {
    let mut store = MessageStore::new(None);
    store.initialize(newest_first(1, PAGE_SIZE as u128));
    assert_eq!(store.messages().len(), PAGE_SIZE);
    assert!(store.has_more_older());
}

#[test]
fn initialize_drops_duplicate_ids() {
    let mut store = MessageStore::new(None);
    let mut page = newest_first(1, 3);
    page.push(Some(msg(2)));
    store.initialize(page);
    assert_eq!(ids(&store), vec![1, 2, 3]);
}

#[test]
fn backfill_splice_produces_full_range() {
    let mut store = MessageStore::new(None);
    store.initialize(newest_first(10, 20));
    assert_eq!(ids(&store), (10..=20).collect::<Vec<u128>>());
    store.prepend_older(newest_first(5, 9));
    assert_eq!(ids(&store), (5..=20).collect::<Vec<u128>>());
    assert!(!store.has_more_older());
}

#[test]
fn backfill_overlapping_page_adds_no_duplicates() {
    let mut store = MessageStore::new(None);
    store.initialize(newest_first(10, 20));
    store.prepend_older(newest_first(5, 12));
    assert_eq!(ids(&store), (5..=20).collect::<Vec<u128>>());
}

#[test]
fn backfill_full_page_keeps_history_open() {
    let mut store = MessageStore::new(None);
    store.initialize(newest_first(100, 119));
    store.prepend_older(newest_first(80, 99));
    assert!(store.has_more_older());
    assert_eq!(store.messages().len(), 40);
}

#[test]
fn insert_twice_keeps_one_entry() {
    let mut store = MessageStore::new(None);
    store.initialize(newest_first(1, 3));
    store.apply_insert(msg(4));
    store.apply_insert(msg(4));
    assert_eq!(ids(&store), vec![1, 2, 3, 4]);
    assert_eq!(store.messages().iter().filter(|m| m.id == 4).count(), 1);
}

#[test]
fn insert_places_late_arrival_by_time() {
    let mut store = MessageStore::new(None);
    store.initialize(vec![Some(msg(5)), Some(msg(1))]);
    store.apply_insert(msg(3));
    assert_eq!(ids(&store), vec![1, 3, 5]);
}

#[test]
fn equal_times_are_ordered_by_id() {
    let mut store = MessageStore::new(None);
    let mut a = msg(9);
    let mut b = msg(4);
    a.created_at = 1000;
    b.created_at = 1000;
    store.apply_insert(a);
    store.apply_insert(b);
    assert_eq!(ids(&store), vec![4, 9]);
}

#[test]
fn insert_stamps_own_messages() {
    let mut store = MessageStore::new(Some(7));
    store.apply_insert(msg(1));
    let mut other = msg(2);
    other.sender_id = Some(8);
    store.apply_insert(other);
    let mut notice = msg(3);
    notice.sender_id = None;
    notice.system_message_type = SystemMessageType::UserJoined;
    store.apply_insert(notice);
    let mine: Vec<bool> = store.messages().iter().map(|m| m.is_my_message).collect();
    assert_eq!(mine, vec![true, false, false]);
}

#[test]
fn no_user_owns_nothing() {
    let mut store = MessageStore::new(None);
    let mut notice = msg(1);
    notice.sender_id = None;
    store.apply_insert(notice);
    assert!(!store.messages()[0].is_my_message);
}

#[test]
fn update_replaces_snapshot() {
    let mut store = MessageStore::new(Some(7));
    store.initialize(newest_first(1, 3));
    let mut edited = msg(2);
    edited.message = "changed".to_string();
    edited.is_edited = true;
    edited.updated_at = Some(5);
    store.apply_update(edited);
    assert_eq!(ids(&store), vec![1, 2, 3]);
    let m = &store.messages()[1];
    assert_eq!(m.message, "changed");
    assert!(m.is_edited);
    assert_eq!(m.updated_at, Some(5));
    assert!(m.is_my_message);
}

#[test]
fn update_unknown_id_changes_nothing() {
    let mut store = MessageStore::new(None);
    store.initialize(newest_first(1, 3));
    let before = store.messages().clone();
    store.apply_update(msg(42));
    assert_eq!(store.messages().len(), 3);
    assert_eq!(*store.messages(), before);
}

#[test]
fn update_with_moved_time_keeps_order() {
    let mut store = MessageStore::new(None);
    store.initialize(newest_first(1, 3));
    let mut moved = msg(1);
    moved.created_at = msg(3).created_at + 1;
    store.apply_update(moved);
    assert_eq!(ids(&store), vec![2, 3, 1]);
}

#[test]
fn delete_removes_entry_and_ignores_unknown() {
    let mut store = MessageStore::new(None);
    store.initialize(newest_first(1, 3));
    store.apply_delete(2);
    assert_eq!(ids(&store), vec![1, 3]);
    store.apply_delete(99);
    assert_eq!(ids(&store), vec![1, 3]);
}

#[test]
fn pin_round_trip_clears_pin_time() {
    let mut store = MessageStore::new(None);
    store.initialize(newest_first(1, 3));
    store.apply_pin_change(2, true, Some(100));
    assert!(store.messages()[1].is_pinned);
    assert_eq!(store.messages()[1].pinned_at, Some(100));
    assert_eq!(store.messages()[1].updated_at, Some(100));
    store.apply_pin_change(2, false, Some(200));
    let m = &store.messages()[1];
    assert!(!m.is_pinned);
    assert_eq!(m.pinned_at, None);
    assert_eq!(m.updated_at, Some(200));
    assert_eq!(ids(&store), vec![1, 2, 3]);
}

#[test]
fn pin_unknown_id_changes_nothing() {
    let mut store = MessageStore::new(None);
    store.initialize(newest_first(1, 3));
    let before = store.messages().clone();
    store.apply_pin_change(9, true, Some(1));
    assert_eq!(*store.messages(), before);
}

#[test]
fn empty_store_operations_are_no_ops() {
    let mut store = MessageStore::new(None);
    store.apply_delete(1);
    store.apply_update(msg(1));
    store.apply_pin_change(1, true, None);
    assert!(store.messages().is_empty());
    store.initialize(Vec::new());
    assert!(store.messages().is_empty());
    assert!(!store.has_more_older());
}

#[test]
fn undecodable_records_are_skipped_but_counted() {
    let mut store = MessageStore::new(None);
    let mut page = newest_first(1, PAGE_SIZE as u128 - 1);
    page.insert(3, None);
    assert_eq!(page.len(), PAGE_SIZE);
    store.initialize(page);
    assert_eq!(store.messages().len(), PAGE_SIZE - 1);
    assert!(store.has_more_older());
    store.prepend_older(vec![None, None]);
    assert_eq!(store.messages().len(), PAGE_SIZE - 1);
    assert!(!store.has_more_older());
}
