use apns_notifyd::dispatch::{expiry_after, push_body_for, Dispatch, EXPIRY_SECONDS};
use apns_notifyd::NotifyError;

fn temporary_db() -> sled::Db {
    sled::Config::new().temporary(true).open().unwrap()
}

#[test]
fn unknown_user_gets_no_request() {
    let db = temporary_db();
    let mut d = Dispatch::start(&db, "nobody").unwrap();
    assert_eq!(d.device_count(), 0);
    assert!(d.next_push(&db, "topic", 5).unwrap().is_none());
    assert_eq!(d.attempted(), 0);
}

#[test]
fn empty_fields_give_exactly_two_requests() {
    let db = temporary_db();
    db.insert("bob", "tokA,,tokB,").unwrap();
    db.insert("device_tokA", "accA").unwrap();
    db.insert("device_tokB", "accB").unwrap();
    let mut d = Dispatch::start(&db, "bob").unwrap();
    assert_eq!(d.device_count(), 2);

    let a = d.next_push(&db, "mail.topic", 1234).unwrap().unwrap();
    assert_eq!(a.device_token, "tokA");
    assert_eq!(a.url, "https://api.push.apple.com/3/device/tokA");
    assert_eq!(a.topic, "mail.topic");
    assert_eq!(a.expiration, 1234);
    assert_eq!(a.body, r#"{"aps":{"account-id":"accA"}}"#);

    let b = d.next_push(&db, "mail.topic", 1234).unwrap().unwrap();
    assert_eq!(b.device_token, "tokB");
    assert_eq!(b.body, r#"{"aps":{"account-id":"accB"}}"#);

    assert!(d.next_push(&db, "mail.topic", 1234).unwrap().is_none());
    assert_eq!(d.attempted(), 2);
}

#[test]
fn refused_push_does_not_stop_dispatch() {
    let db = temporary_db();
    db.insert("carol", "d2,d1,").unwrap();
    db.insert("device_d1", "a1").unwrap();
    db.insert("device_d2", "a2").unwrap();
    let mut d = Dispatch::start(&db, "carol").unwrap();
    let first = d.next_push(&db, "t", 0).unwrap().unwrap();
    assert_eq!(first.device_token, "d2");
    assert!(!d.record_status(410));
    let second = d.next_push(&db, "t", 0).unwrap().unwrap();
    assert_eq!(second.device_token, "d1");
    assert!(d.record_status(200));
    assert!(d.next_push(&db, "t", 0).unwrap().is_none());
    assert_eq!(d.refused_count(), 1);
    assert_eq!(d.attempted(), 2);
}

#[test]
fn listed_device_without_record_is_inconsistent() {
    let db = temporary_db();
    db.insert("dave", "ghost,").unwrap();
    let mut d = Dispatch::start(&db, "dave").unwrap();
    match d.next_push(&db, "t", 0) {
        Err(NotifyError::MissingAccount(token)) => assert_eq!(token, b"ghost".to_vec()),
        _ => panic!("expected a missing account"),
    }
}

#[test]
fn account_that_is_not_text_is_corrupt() {
    let db = temporary_db();
    db.insert("erin", "dev,").unwrap();
    db.insert("device_dev", vec![0xffu8, 0xfe]).unwrap();
    let mut d = Dispatch::start(&db, "erin").unwrap();
    match d.next_push(&db, "t", 0) {
        Err(NotifyError::CorruptRecord(key)) => assert_eq!(key, b"device_dev".to_vec()),
        _ => panic!("expected a corrupt record"),
    }
}

#[test]
fn device_list_that_is_not_text_is_corrupt() {
    let db = temporary_db();
    db.insert("frank", vec![b'a', b',', 0xff, b',']).unwrap();
    match Dispatch::start(&db, "frank") {
        Err(NotifyError::CorruptRecord(key)) => assert_eq!(key, b"frank".to_vec()),
        _ => panic!("expected a corrupt record"),
    }
}

#[test]
fn push_body_escapes_account() {
    assert_eq!(push_body_for("acc1"), r#"{"aps":{"account-id":"acc1"}}"#);
    assert_eq!(push_body_for("a\"b"), r#"{"aps":{"account-id":"a\"b"}}"#);
}

#[test]
fn expiry_is_one_day_later() {
    assert_eq!(EXPIRY_SECONDS, 86400);
    assert_eq!(expiry_after(1_000), 87_400);
}
