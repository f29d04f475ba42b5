use snitch_store::StoreError;
use snitch_store::user::{User, UserID};
use snitch_store::users::Users;

#[test]
fn test_valid_password() {
    let users = Users::example();
    assert_eq!(users.valid_password("non-existent", "password"), false);
    assert_eq!(users.valid_password("testuser", "password"), false);
    assert_eq!(users.valid_password("testuser", "grr"), true);
}

#[test]
fn add_then_get_by_id() {
    let mut users = Users::example();
    let u = User::new("bob".to_string(), "secret".to_string());
    let added = users.add_user(u.clone()).unwrap();
    assert_eq!(added, u);
    let got = users.get_user_by_id(u.user_id.clone()).unwrap();
    assert_eq!(got, u);
}

#[test]
fn get_users_lists_all() {
    let mut users = Users::example();
    let u = User::new("bob".to_string(), "secret".to_string());
    users.add_user(u.clone()).unwrap();
    let all = users.get_users().unwrap();
    assert_eq!(all.len(), 2);
    assert_eq!(all[0].username, "testuser".to_string());
    assert_eq!(all[1], u);
}

#[test]
fn delete_then_get_is_not_found() {
    let mut users = Users::example();
    let u = User::new("bob".to_string(), "secret".to_string());
    users.add_user(u.clone()).unwrap();
    let removed = users.delete_user(u.user_id.clone()).unwrap();
    assert_eq!(removed, u);
    assert_eq!(users.get_user_by_id(u.user_id.clone()), Err(StoreError::NotFound));
    assert_eq!(users.delete_user(u.user_id), Err(StoreError::NotFound));
}

#[test]
fn ambiguous_username_resolves_to_none() {
    let mut users = Users::example();
    let u1 = User::new("bob".to_string(), "one".to_string());
    let u2 = User::new("bob".to_string(), "two".to_string());
    users.add_user(u1).unwrap();
    assert!(users.get_user_by_name("bob").is_some());
    users.add_user(u2).unwrap();
    assert!(users.get_user_by_name("bob").is_none());
    assert_eq!(users.valid_password("bob", "one"), false);
}

#[test]
fn fresh_identifiers_differ() {
    let u1 = User::new("carol".to_string(), "pw".to_string());
    let u2 = User::new("carol".to_string(), "pw".to_string());
    assert_ne!(u1.user_id, u2.user_id);
    assert_eq!(u1.user_id.0.len(), 36);
    for (i, c) in u1.user_id.0.chars().enumerate() {
        if i == 8 || i == 13 || i == 18 || i == 23 {
            assert_eq!(c, '-');
        } else {
            assert!(c.is_ascii_hexdigit() && !c.is_ascii_uppercase());
        }
    }
    assert!(!u1.user_id.0.contains(':'));
    assert_ne!(UserID::default(), u1.user_id);
}
