use shiki::events::User;
use shiki::models;
use shiki::rest::{
    apply_user_changes, default_after, default_before, default_limit, distinct_author_ids,
    join_messages, limit_in_range, parse_bearer, ModifyUser, UserResponse,
};

fn message(id: i64, author_id: i64, content: &str) -> models::Message {
    models::Message {
        id,
        channel_id: 10,
        author_id,
        content: content.to_string(),
        created_at: 1700000000,
    }
}

#[test]
fn listing_defaults() {
    assert_eq!(default_before(), None);
    assert_eq!(default_after(), None);
    assert_eq!(default_limit(), 50);
}

#[test]
fn listing_limit_bounds() {
    assert!(!limit_in_range(0));
    assert!(limit_in_range(1));
    assert!(limit_in_range(50));
    assert!(limit_in_range(100));
    assert!(!limit_in_range(101));
    assert!(!limit_in_range(-3));
}

#[test]
fn bearer_header_parsing() {
    assert_eq!(parse_bearer("Bearer abc123"), Some("abc123".to_string()));
    assert_eq!(parse_bearer("Bearer "), Some(String::new()));
    assert_eq!(parse_bearer("Basic abc123"), None);
    assert_eq!(parse_bearer("bearer abc123"), None);
    assert_eq!(parse_bearer("Bear"), None);
    assert_eq!(parse_bearer(""), None);
    assert_eq!(
        parse_bearer("Bearer 550e8400-e29b-41d4-a716-446655440000"),
        Some("550e8400-e29b-41d4-a716-446655440000".to_string())
    );
}

#[test]
fn distinct_author_ids_deduplicates_in_first_seen_order() {
    let messages = vec![
        message(1, 7, "a"),
        message(2, 8, "b"),
        message(3, 7, "c"),
        message(4, 9, "d"),
        message(5, 8, "e"),
    ];
    assert_eq!(distinct_author_ids(&messages), vec![7, 8, 9]);
    assert_eq!(distinct_author_ids(&Vec::new()), Vec::<i64>::new());
}

#[test]
fn join_messages_attaches_the_right_author() {
    let messages = vec![message(1, 7, "hi"), message(2, 8, "yo"), message(3, 99, "??")];
    let users = vec![
        User::new(7, "alice".to_string(), 1700000000, None),
        User::new(8, "bob".to_string(), 1700000050, None),
    ];
    let joined = join_messages(&messages, &users);
    assert_eq!(joined.len(), 3);
    assert_eq!(joined[0].content, "hi");
    assert_eq!(joined[0].author.username, "alice");
    assert_eq!(joined[1].author.username, "bob");
    // A missing author falls back to the blank user.
    assert_eq!(joined[2].author.id, 0);
    assert_eq!(joined[2].author.username, "");
    assert_eq!(joined[2].channel_id, 10);
}

#[test]
fn apply_user_changes_overwrites_only_present_fields() {
    let mut user = models::User::new(7, "a@b.c", "alice", "hash", None);
    apply_user_changes(
        &mut user,
        &ModifyUser { username: Some("alicia".to_string()), avatar: None },
    );
    assert_eq!(user.username, "alicia");
    assert_eq!(user.avatar, None);
    apply_user_changes(
        &mut user,
        &ModifyUser { username: None, avatar: Some("http://a/p.png".to_string()) },
    );
    assert_eq!(user.username, "alicia");
    assert_eq!(user.avatar, Some("http://a/p.png".to_string()));
    assert_eq!(user.id, 7);
    assert_eq!(user.email, "a@b.c");
}

#[test]
fn new_accounts_carry_a_parseable_token() {
    let user = models::User::new(7, "a@b.c", "alice", "hash", None);
    assert_eq!(user.token.len(), 36);
    assert!(uuid::Uuid::parse_str(&user.token).is_ok());
    let again = models::User::new(8, "d@e.f", "bob", "hash", None);
    assert_ne!(user.token, again.token);
}

#[test]
fn user_response_projects_id_and_token() {
    let user = models::User::new(7, "a@b.c", "alice", "hash", None);
    let token = user.token.clone();
    let response = UserResponse::of_user(user);
    assert_eq!(response.user_id, 7);
    assert_eq!(response.token, token);
}

#[test]
fn gateway_projection_hides_credentials() {
    let user = models::User::new(7, "a@b.c", "alice", "hash", Some("av".to_string()));
    let projected = user.to_gateway();
    assert_eq!(projected.id, 7);
    assert_eq!(projected.username, "alice");
    assert_eq!(projected.joined, user.created_at);
    assert_eq!(projected.avatar, Some("av".to_string()));
}

#[test]
fn document_constructors_keep_their_fields() {
    let channel = models::Channel::new(10, "general", Some("the lobby".to_string()), 7);
    assert_eq!(channel.id, 10);
    assert_eq!(channel.name, "general");
    assert_eq!(channel.description, Some("the lobby".to_string()));
    assert_eq!(channel.owner_id, 7);

    let msg = models::Message::new(900, 10, 7, "hello");
    assert_eq!(msg.id, 900);
    assert_eq!(msg.channel_id, 10);
    assert_eq!(msg.author_id, 7);
    assert_eq!(msg.content, "hello");
}
