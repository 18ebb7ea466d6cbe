use chat_app::database::{
    create_message, create_message_at, filter_admits, get_messages, Database, MessageFilter,
    MESSAGE_LIMIT,
};
use chat_app::models::Message;

fn dates_of(messages: &[Message]) -> Vec<i64> {
    messages.iter().map(|m| m.date).collect()
}

fn texts_of(messages: &[Message]) -> Vec<String> {
    messages.iter().map(|m| m.messagetext.clone()).collect()
}

fn store_with_dates(dates: &[i64]) -> Database {
    let mut db = Database::new();
    for (i, date) in dates.iter().enumerate() {
        create_message_at(&mut db, &format!("m{i}"), 1, *date).unwrap();
    }
    db
}

#[test]
fn stored_message_is_returned_with_id_and_date() {
    let mut db = Database::new();
    let first = create_message_at(&mut db, "hi", 7, 1_000).unwrap();
    assert_eq!((first.id, first.date, first.userid), (1, 1_000, 7));
    assert_eq!(first.messagetext, "hi");
    let second = create_message_at(&mut db, "", 8, 1_000).unwrap();
    assert_eq!((second.id, second.date, second.userid), (2, 1_000, 8));
    assert_eq!(second.messagetext, "");
}

#[test]
fn filter_bounds_are_strict() {
    assert!(filter_admits(&MessageFilter::Before(10), 9));
    assert!(!filter_admits(&MessageFilter::Before(10), 10));
    assert!(!filter_admits(&MessageFilter::Before(10), 11));
    assert!(filter_admits(&MessageFilter::After(10), 11));
    assert!(!filter_admits(&MessageFilter::After(10), 10));
    assert!(!filter_admits(&MessageFilter::After(10), 9));
    assert!(!filter_admits(&MessageFilter::Before(i64::MIN), i64::MIN));
    assert!(!filter_admits(&MessageFilter::After(i64::MAX), i64::MAX));
}

#[test]
fn before_returns_only_earlier_messages_oldest_first() {
    let db = store_with_dates(&[10, 20, 30, 40]);
    let got = get_messages(&db, &MessageFilter::Before(30)).unwrap();
    assert_eq!(dates_of(&got), vec![10, 20]);
    assert_eq!(texts_of(&got), vec!["m0", "m1"]);
    assert!(get_messages(&db, &MessageFilter::Before(10)).unwrap().is_empty());
    assert_eq!(dates_of(&get_messages(&db, &MessageFilter::Before(41)).unwrap()), vec![10, 20, 30, 40]);
}

#[test]
fn after_returns_only_later_messages_oldest_first() {
    let db = store_with_dates(&[10, 20, 30, 40]);
    let got = get_messages(&db, &MessageFilter::After(20)).unwrap();
    assert_eq!(dates_of(&got), vec![30, 40]);
    assert_eq!(texts_of(&got), vec!["m2", "m3"]);
    assert!(get_messages(&db, &MessageFilter::After(40)).unwrap().is_empty());
    assert_eq!(dates_of(&get_messages(&db, &MessageFilter::After(9)).unwrap()), vec![10, 20, 30, 40]);
}

#[test]
fn empty_store_returns_nothing() {
    let db = Database::new();
    assert!(get_messages(&db, &MessageFilter::Before(i64::MAX)).unwrap().is_empty());
    assert!(get_messages(&db, &MessageFilter::After(i64::MIN)).unwrap().is_empty());
}

#[test]
fn at_most_twenty_messages_are_returned() {
    assert_eq!(MESSAGE_LIMIT, 20);
    let dates: Vec<i64> = (1..=25).collect();
    let db = store_with_dates(&dates);
    let before = get_messages(&db, &MessageFilter::Before(100)).unwrap();
    assert_eq!(dates_of(&before), (1..=20).collect::<Vec<i64>>());
    let exactly = store_with_dates(&(1..=20).collect::<Vec<i64>>());
    assert_eq!(get_messages(&exactly, &MessageFilter::After(0)).unwrap().len(), 20);
}

#[test]
fn after_with_a_backlog_returns_the_oldest_twenty_and_misses_the_rest() {
    let dates: Vec<i64> = (1..=30).collect();
    let db = store_with_dates(&dates);
    let first = get_messages(&db, &MessageFilter::After(5)).unwrap();
    assert_eq!(dates_of(&first), (6..=25).collect::<Vec<i64>>());
    let next = get_messages(&db, &MessageFilter::After(25)).unwrap();
    assert_eq!(dates_of(&next), vec![26, 27, 28, 29, 30]);
}

#[test]
fn messages_are_kept_in_the_order_of_their_dates() {
    let db = store_with_dates(&[30, 10, 20, 10, 40, 5]);
    let got = get_messages(&db, &MessageFilter::After(0)).unwrap();
    assert_eq!(dates_of(&got), vec![5, 10, 10, 20, 30, 40]);
    assert_eq!(texts_of(&got), vec!["m5", "m1", "m3", "m2", "m0", "m4"]);
}

#[test]
fn messages_of_one_date_keep_the_order_of_arrival() {
    let db = store_with_dates(&[7, 7, 7]);
    let got = get_messages(&db, &MessageFilter::Before(8)).unwrap();
    assert_eq!(texts_of(&got), vec!["m0", "m1", "m2"]);
    let ids: Vec<i32> = got.iter().map(|m| m.id).collect();
    assert_eq!(ids, vec![1, 2, 3]);
}

#[test]
fn message_ids_rise_whatever_the_dates() {
    let mut db = Database::new();
    let a = create_message_at(&mut db, "late", 1, 100).unwrap();
    let b = create_message_at(&mut db, "early", 1, 50).unwrap();
    assert_eq!((a.id, b.id), (1, 2));
    let got = get_messages(&db, &MessageFilter::After(0)).unwrap();
    assert_eq!(texts_of(&got), vec!["early", "late"]);
}

#[test]
fn message_dated_by_the_clock_is_recent() {
    let mut db = Database::new();
    let stored = create_message(&mut db, "now", 3).unwrap();
    assert_eq!(stored.id, 1);
    assert_eq!(stored.userid, 3);
    assert_eq!(stored.messagetext, "now");
    // Later than the first of January 2020, in milliseconds.
    assert!(stored.date > 1_577_836_800_000);
    let got = get_messages(&db, &MessageFilter::After(1_577_836_800_000)).unwrap();
    assert_eq!(got.len(), 1);
}
