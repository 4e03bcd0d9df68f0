use apns_notifyd::event::Event;
use apns_notifyd::registry::{device_tokens, prepend_device, register, Registration};
use apns_notifyd::{handle_event, NotifyError};

fn temporary_db() -> sled::Db {
    sled::Config::new().temporary(true).open().unwrap()
}

fn stored(db: &sled::Db, key: &str) -> Option<String> {
    db.get(key).unwrap().map(|v| String::from_utf8(v.to_vec()).unwrap())
}

#[test]
fn registration_example_builds_list_newest_first() {
    let mut db = temporary_db();
    let first = br#"{"event":"ApplePushService","apsAccountId":"acc1","apsDeviceToken":"dev1","user":"alice"}"#;
    let r = handle_event(first, &mut db).unwrap();
    assert!(matches!(r, Event::Registration(_)));
    assert_eq!(stored(&db, "device_dev1").as_deref(), Some("acc1"));
    assert_eq!(stored(&db, "alice").as_deref(), Some("dev1,"));

    let second = br#"{"event":"ApplePushService","apsAccountId":"acc2","apsDeviceToken":"dev2","user":"alice"}"#;
    handle_event(second, &mut db).unwrap();
    assert_eq!(stored(&db, "device_dev2").as_deref(), Some("acc2"));
    assert_eq!(stored(&db, "alice").as_deref(), Some("dev2,dev1,"));
}

#[test]
fn registering_twice_lists_device_twice() {
    let mut db = temporary_db();
    let reg = Registration {
        account_id: "acc1".to_string(),
        device_token: "dev1".to_string(),
        user: "bob".to_string(),
    };
    register(&reg, &mut db).unwrap();
    register(&reg, &mut db).unwrap();
    assert_eq!(stored(&db, "bob").as_deref(), Some("dev1,dev1,"));
    let list = db.get("bob").unwrap().unwrap().to_vec();
    assert_eq!(device_tokens(&list), vec![b"dev1".to_vec(), b"dev1".to_vec()]);
}

#[test]
fn reregistration_overwrites_account() {
    let mut db = temporary_db();
    let mut reg = Registration {
        account_id: "acc1".to_string(),
        device_token: "dev1".to_string(),
        user: "carol".to_string(),
    };
    register(&reg, &mut db).unwrap();
    reg.account_id = "acc9".to_string();
    register(&reg, &mut db).unwrap();
    assert_eq!(stored(&db, "device_dev1").as_deref(), Some("acc9"));
}

#[test]
fn missing_registration_members_fail_without_writes() {
    let inputs: [&[u8]; 4] = [
        br#"{"event":"ApplePushService","apsDeviceToken":"dev1","user":"alice"}"#,
        br#"{"event":"ApplePushService","apsAccountId":"acc1","user":"alice"}"#,
        br#"{"event":"ApplePushService","apsAccountId":"acc1","apsDeviceToken":"dev1"}"#,
        br#"{"event":"ApplePushService","apsAccountId":"acc1","apsDeviceToken":7,"user":"alice"}"#,
    ];
    for input in inputs {
        let mut db = temporary_db();
        let r = handle_event(input, &mut db);
        assert!(matches!(r, Err(NotifyError::MalformedRegistration)));
        assert_eq!(db.len(), 0);
    }
}

#[test]
fn notification_without_user_fails_without_writes() {
    let mut db = temporary_db();
    let r = handle_event(br#"{"event":"MessageNew","uri":"imap://x/1"}"#, &mut db);
    assert!(matches!(r, Err(NotifyError::MalformedPush)));
    assert_eq!(db.len(), 0);
}

#[test]
fn notification_leaves_store_alone() {
    let mut db = temporary_db();
    let r = handle_event(br#"{"event":"MessageNew","user":"alice","uri":"imap://x/1"}"#, &mut db).unwrap();
    match r {
        Event::Notification(n) => {
            assert_eq!(n.user, "alice");
            assert_eq!(n.uri.as_deref(), Some("imap://x/1"));
        }
        _ => panic!("expected a notification"),
    }
    assert_eq!(db.len(), 0);
}

#[test]
fn input_without_event_is_invalid() {
    let mut db = temporary_db();
    assert!(matches!(handle_event(b"not json", &mut db), Err(NotifyError::InvalidInput)));
    assert!(matches!(handle_event(b"[1,2]", &mut db), Err(NotifyError::InvalidInput)));
    assert!(matches!(handle_event(br#"{"user":"alice"}"#, &mut db), Err(NotifyError::InvalidInput)));
    assert!(matches!(handle_event(br#"{"event":3}"#, &mut db), Err(NotifyError::InvalidInput)));
}

#[test]
fn unknown_event_is_unsupported() {
    let mut db = temporary_db();
    match handle_event(br#"{"event":"MessageRead","user":"alice"}"#, &mut db) {
        Err(NotifyError::UnsupportedEvent(name)) => assert_eq!(name, "MessageRead"),
        _ => panic!("expected an unsupported event"),
    }
}

#[test]
fn prepend_device_puts_token_first() {
    assert_eq!(prepend_device(b"dev2", Some(b"dev1,")), b"dev2,dev1,".to_vec());
    assert_eq!(prepend_device(b"dev1", None), b"dev1,".to_vec());
}

#[test]
fn device_tokens_skip_empty_fields() {
    assert_eq!(device_tokens(b"tokA,,tokB,"), vec![b"tokA".to_vec(), b"tokB".to_vec()]);
    assert_eq!(device_tokens(b",a,"), vec![b"a".to_vec()]);
    assert!(device_tokens(b"").is_empty());
    assert!(device_tokens(b",,,").is_empty());
    assert_eq!(device_tokens(b"x"), vec![b"x".to_vec()]);
}
