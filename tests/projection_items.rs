use chat_sync::models::{ChatMessage, SystemMessageType};
use chat_sync::projection::{calendar_day, project, ListItem};
use chat_sync::store::MessageStore;
use chrono::NaiveDate;

fn at(id: u128, y: i32, mo: u32, d: u32, h: u32, mi: u32) -> ChatMessage {
    let ts = NaiveDate::from_ymd_opt(y, mo, d)
        .unwrap()
        .and_hms_opt(h, mi, 0)
        .unwrap()
        .and_utc()
        .timestamp_millis();
    ChatMessage {
        id,
        sender_id: None,
        sender_user_name: None,
        sender_first_name: None,
        sender_last_name: None,
        sender_is_online: None,
        system_message_type: SystemMessageType::Regular,
        message: String::new(),
        is_edited: false,
        is_pinned: false,
        created_at: ts,
        updated_at: None,
        pinned_at: None,
        is_my_message: false,
    }
}

fn day_of(y: i32, mo: u32, d: u32) -> i64 {
    let epoch = NaiveDate::from_ymd_opt(1970, 1, 1).unwrap();
    (NaiveDate::from_ymd_opt(y, mo, d).unwrap() - epoch).num_days()
}

#[test]
fn separators_across_midnight() {
    let msgs = vec![
        at(1, 2024, 1, 1, 23, 59),
        at(2, 2024, 1, 2, 0, 1),
        at(3, 2024, 1, 2, 12, 0),
    ];
    let items = project(&msgs);
    assert_eq!(
        items,
        vec![
            ListItem::DateSeparator(day_of(2024, 1, 1)),
            ListItem::Message(msgs[0].clone()),
            ListItem::DateSeparator(day_of(2024, 1, 2)),
            ListItem::Message(msgs[1].clone()),
            ListItem::Message(msgs[2].clone()),
        ]
    );
    let separators = items.iter().filter(|i| matches!(i, ListItem::DateSeparator(_))).count();
    assert_eq!(separators, 2);
}

#[test]
fn empty_projection_is_empty() {
    assert!(project(&Vec::new()).is_empty());
}

#[test]
fn same_day_messages_share_one_separator() {
    let msgs = vec![at(1, 2023, 5, 6, 8, 0), at(2, 2023, 5, 6, 9, 0)];
    let items = project(&msgs);
    assert_eq!(items.len(), 3);
    assert_eq!(items[0], ListItem::DateSeparator(day_of(2023, 5, 6)));
}

#[test]
fn calendar_day_rounds_down() {
    assert_eq!(calendar_day(0), 0);
    assert_eq!(calendar_day(86_399_999), 0);
    assert_eq!(calendar_day(86_400_000), 1);
    assert_eq!(calendar_day(-1), -1);
    assert_eq!(calendar_day(-86_400_000), -1);
    assert_eq!(calendar_day(-86_400_001), -2);
    assert_eq!(calendar_day(i64::MIN), i64::MIN.div_euclid(86_400_000));
    assert_eq!(calendar_day(i64::MAX), i64::MAX / 86_400_000);
}

#[test]
fn calendar_day_matches_dates() {
    let m = at(1, 2024, 1, 1, 23, 59);
    assert_eq!(calendar_day(m.created_at), day_of(2024, 1, 1));
    let old = at(2, 1969, 12, 31, 12, 0);
    assert_eq!(calendar_day(old.created_at), -1);
}

#[test]
fn projection_lists_earlier_messages_first() {
    let mut store = MessageStore::new(None);
    store.apply_insert(at(30, 2024, 3, 2, 9, 0));
    store.apply_insert(at(10, 2024, 3, 1, 9, 0));
    store.apply_insert(at(20, 2024, 3, 1, 18, 30));
    store.apply_insert(at(40, 2024, 3, 2, 8, 0));
    let items = project(store.messages());
    let order: Vec<u128> = items
        .iter()
        .filter_map(|i| match i {
            ListItem::Message(m) => Some(m.id),
            ListItem::DateSeparator(_) => None,
        })
        .collect();
    assert_eq!(order, vec![10, 20, 40, 30]);
    assert_eq!(items.len(), 6);
}
