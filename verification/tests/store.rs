use snitch_store::StoreError;
use snitch_store::message::{MessageBackend, MessageKey};
use snitch_store::store::RedisDatabaseService;
use snitch_store::ttl::{MESSAGE_TTL_SECS, PENDING_USER_TTL_SECS};
use snitch_store::user::User;

#[test]
fn test_add_delete_user() {
    let mut test_user = User::example();
    test_user.username = "xxxx".to_string();
    let mut db = RedisDatabaseService::new();

    db.add_user(&test_user);
    let _x = db.get_user_by_id(&test_user.user_id).unwrap();
    let x = db.get_user_by_name(&test_user.username).unwrap().unwrap();
    assert_eq!(x.username, test_user.username);
    assert_eq!(x.user_id, test_user.user_id);

    db.delete_user(&test_user.user_id);
    assert_eq!(db.get_user_by_id(&test_user.user_id), Err(StoreError::NotFound));
}

#[test]
fn test_add_messages() {
    let mut test_user = User::example();
    test_user.username = "asdf".to_string();
    let mut db = RedisDatabaseService::new();
    let mut test_message = MessageBackend::default();
    db.add_user(&test_user);

    let n_hostnames = 3;
    for i in 0..n_hostnames {
        test_message.hostname = format!("testhostname-{}", i);
        let key = MessageKey {
            user_id: test_user.user_id.clone(),
            hostname: test_message.hostname.clone(),
        };
        db.add_message(&key, &test_message).unwrap();
        assert_eq!(db.find_messages(&key).unwrap().len(), 1);
    }

    let hostnames = db.get_hostnames_of_user(&test_user.user_id).unwrap();
    assert_eq!(hostnames.len(), n_hostnames);

    db.delete_user(&test_user.user_id);
}

#[test]
fn stage_confirm_scenario() {
    let mut db = RedisDatabaseService::new();
    let alice = User::new("alice".to_string(), "wonder".to_string());
    db.add_user_pending(&alice, "abc123").unwrap();
    db.confirm_user_pending("abc123").unwrap();
    let got = db.get_user_by_name("alice").unwrap().unwrap();
    assert_eq!(got.username, "alice".to_string());
    assert_eq!(got.user_id, alice.user_id);
    assert_eq!(db.get_user_pending("abc123"), Err(StoreError::NotFound));
}

#[test]
fn pending_expires_after_ttl() {
    let mut db = RedisDatabaseService::new();
    let u = User::new("dana".to_string(), "pw".to_string());
    db.add_user_pending(&u, "nonce-1").unwrap();
    db.advance_clock(PENDING_USER_TTL_SECS - 1);
    assert!(db.get_user_pending("nonce-1").is_ok());
    db.advance_clock(1);
    assert_eq!(db.get_user_pending("nonce-1"), Err(StoreError::NotFound));
    assert_eq!(db.confirm_user_pending("nonce-1"), Err(StoreError::NotFound));
}

#[test]
fn message_log_expires_without_appends() {
    let mut db = RedisDatabaseService::new();
    let u = User::new("erin".to_string(), "pw".to_string());
    let key = MessageKey { user_id: u.user_id.clone(), hostname: "host-a".to_string() };
    let mut m = MessageBackend::default();
    m.hostname = "host-a".to_string();
    db.add_message(&key, &m).unwrap();
    db.advance_clock(MESSAGE_TTL_SECS - 1);
    assert_eq!(db.find_messages(&key).unwrap().len(), 1);
    // an append refreshes the whole key's expiry window
    db.add_message(&key, &m).unwrap();
    db.advance_clock(MESSAGE_TTL_SECS - 1);
    assert_eq!(db.find_messages(&key).unwrap().len(), 2);
    db.advance_clock(1);
    assert_eq!(db.find_messages(&key).unwrap().len(), 0);
    assert_eq!(db.get_hostnames_of_user(&u.user_id).unwrap().len(), 0);
}

#[test]
fn messages_come_back_in_insertion_order() {
    let mut db = RedisDatabaseService::new();
    let u = User::new("fred".to_string(), "pw".to_string());
    let key = MessageKey { user_id: u.user_id.clone(), hostname: "host-b".to_string() };
    for text in ["m1", "m2", "m3"] {
        let m = MessageBackend { hostname: "host-b".to_string(), content: text.to_string() };
        db.add_message(&key, &m).unwrap();
    }
    let got = db.find_messages(&key).unwrap();
    assert_eq!(got.len(), 3);
    assert_eq!(got[0].content, "m1".to_string());
    assert_eq!(got[1].content, "m2".to_string());
    assert_eq!(got[2].content, "m3".to_string());
}

#[test]
fn reads_are_capped_at_the_window() {
    let mut db = RedisDatabaseService::new();
    let u = User::new("gus".to_string(), "pw".to_string());
    let key = MessageKey { user_id: u.user_id.clone(), hostname: "host-c".to_string() };
    for i in 0..1001 {
        let m = MessageBackend { hostname: "host-c".to_string(), content: format!("m{}", i) };
        db.add_message(&key, &m).unwrap();
    }
    let got = db.find_messages(&key).unwrap();
    assert_eq!(got.len(), 1000);
    assert_eq!(got[0].content, "m0".to_string());
    assert_eq!(got[999].content, "m999".to_string());
}

#[test]
fn hostnames_are_enumerated_exactly() {
    let mut db = RedisDatabaseService::new();
    let u = User::new("hana".to_string(), "pw".to_string());
    for host in ["a", "b", "c"] {
        let key = MessageKey { user_id: u.user_id.clone(), hostname: host.to_string() };
        let m = MessageBackend { hostname: host.to_string(), content: "hi".to_string() };
        db.add_message(&key, &m).unwrap();
        db.add_message(&key, &m).unwrap();
    }
    let mut hostnames = db.get_hostnames_of_user(&u.user_id).unwrap();
    hostnames.sort();
    assert_eq!(hostnames, vec!["a".to_string(), "b".to_string(), "c".to_string()]);
}

#[test]
fn deleted_user_leaves_orphaned_index() {
    let mut db = RedisDatabaseService::new();
    let u = User::new("ivy".to_string(), "pw".to_string());
    db.add_user(&u);
    db.delete_user(&u.user_id);
    assert_eq!(db.get_user_by_id(&u.user_id), Err(StoreError::NotFound));
    // the index entry survives the delete and now points at nothing
    assert_eq!(db.get_user_by_name("ivy"), Err(StoreError::NotFound));
    assert_eq!(db.get_user_by_name("never-created"), Ok(None));
}

#[test]
fn reused_nonce_overwrites() {
    let mut db = RedisDatabaseService::new();
    let u1 = User::new("jon".to_string(), "pw1".to_string());
    let u2 = User::new("kim".to_string(), "pw2".to_string());
    db.add_user_pending(&u1, "shared").unwrap();
    db.add_user_pending(&u2, "shared").unwrap();
    assert_eq!(db.get_user_pending("shared").unwrap().username, "kim".to_string());
    db.delete_user_pending("shared");
    assert_eq!(db.get_user_pending("shared"), Err(StoreError::NotFound));
}
