use snitch_store::message::MessageKey;
use snitch_store::schema::{messages_key, pending_key, user_key, username_index_key};
use snitch_store::user::UserID;

#[test]
fn keys_follow_the_colon_delimited_schema() {
    assert_eq!(user_key("u1"), "user:u1".to_string());
    assert_eq!(username_index_key("bob"), "user_usernames:bob".to_string());
    assert_eq!(pending_key("n42"), "user_pending:n42".to_string());
    assert_eq!(messages_key("u1", "host-a"), "messages:u1:host-a".to_string());
}

#[test]
fn message_key_renders_through_the_schema() {
    let key = MessageKey {
        user_id: UserID::from("u1".to_string()),
        hostname: "host-a".to_string(),
    };
    assert_eq!(key.to_redis_key(), "messages:u1:host-a".to_string());
}
