use shiki::events::{Event, User};
use shiki::hub::{Delivery, Hub, IdentifyDecision};

fn sample_user(id: i64, name: &str) -> User {
    User::new(id, name.to_string(), 1700000000, None)
}

fn targets(deliveries: &[Delivery]) -> Vec<u64> {
    deliveries.iter().map(|d| d.to).collect()
}

#[test]
fn connect_greets_with_hello() {
    let mut hub = Hub::new();
    let (id, deliveries) = hub.connect();
    assert_eq!(deliveries.len(), 1);
    assert_eq!(deliveries[0].to, id);
    assert!(matches!(deliveries[0].event, Event::Hello));
    assert_eq!(hub.visitor_count, 1);
}

#[test]
fn connect_assigns_distinct_ids() {
    let mut hub = Hub::new();
    let (a, _) = hub.connect();
    let (b, _) = hub.connect();
    let (c, _) = hub.connect();
    assert!(a != b && b != c && a != c);
    assert_eq!(hub.visitor_count, 3);
}

#[test]
fn new_connection_joins_every_channel() {
    let mut hub = Hub::new();
    let (a, _) = hub.connect();
    let (created, _) = hub.create_channel(10, None, "general".to_string());
    assert!(created.is_some());
    let (b, _) = hub.connect();
    let channels = hub.list_channels();
    assert_eq!(channels.len(), 1);
    assert!(channels[0].sessions.contains(&a));
    assert!(channels[0].sessions.contains(&b));
}

#[test]
fn channel_create_broadcasts_to_everyone() {
    let mut hub = Hub::new();
    let (a, _) = hub.connect();
    let (b, _) = hub.connect();
    let (created, deliveries) = hub.create_channel(10, None, "general".to_string());
    let channel = created.expect("fresh id must create");
    assert_eq!(channel.id, 10);
    assert_eq!(channel.name, "general");
    assert_eq!(channel.sessions.len(), 2);
    let ts = targets(&deliveries);
    assert!(ts.contains(&a) && ts.contains(&b));
    assert_eq!(ts.len(), 2);
    for d in &deliveries {
        match &d.event {
            Event::ChannelCreate(p) => {
                assert_eq!(p.id, 10);
                assert_eq!(p.name, "general");
            }
            _ => panic!("expected ChannelCreate"),
        }
    }
}

#[test]
fn channel_create_collision_returns_none_and_preserves() {
    let mut hub = Hub::new();
    let (_a, _) = hub.connect();
    let (first, _) = hub.create_channel(10, None, "general".to_string());
    assert!(first.is_some());
    let members_before = hub.list_channels()[0].sessions.clone();
    let (second, deliveries) = hub.create_channel(10, None, "other".to_string());
    assert!(second.is_none());
    assert!(deliveries.is_empty());
    let channels = hub.list_channels();
    assert_eq!(channels.len(), 1);
    assert_eq!(channels[0].name, "general");
    assert_eq!(channels[0].sessions, members_before);
}

#[test]
fn message_includes_sender_where_join_notice_excludes_joiner() {
    let mut hub = Hub::new();
    let (a, _) = hub.connect();
    let (b, _) = hub.connect();
    hub.create_channel(10, None, "general".to_string());

    // CreateMessage reaches every member, the sender's session included.
    let (msg, deliveries) =
        hub.create_message(10, 777, "hi".to_string(), sample_user(2, "b"), 1700000001);
    assert!(msg.is_some());
    let message_targets = targets(&deliveries);
    assert!(message_targets.contains(&a));
    assert!(message_targets.contains(&b));

    // Join's connect notice reaches the other members only.
    let (c, _) = hub.connect();
    let (joined, notices) = hub.join(c, 10);
    assert!(joined.is_some());
    let join_targets = targets(&notices);
    assert!(!join_targets.contains(&c));
    assert!(join_targets.contains(&a));
    assert!(join_targets.contains(&b));

    // The two broadcast rules must differ: one includes its origin, one not.
    assert_ne!(message_targets.contains(&b), join_targets.contains(&c));
}

#[test]
fn join_missing_channel_fails() {
    let mut hub = Hub::new();
    let (a, _) = hub.connect();
    let (joined, deliveries) = hub.join(a, 99);
    assert!(joined.is_none());
    assert!(deliveries.is_empty());
}

#[test]
fn join_unknown_session_fails_and_leaves_no_dangling_member() {
    let mut hub = Hub::new();
    hub.connect();
    hub.create_channel(10, None, "general".to_string());
    let (joined, deliveries) = hub.join(424242, 10);
    assert!(joined.is_none());
    assert!(deliveries.is_empty());
    assert!(!hub.list_channels()[0].sessions.contains(&424242));
}

#[test]
fn create_message_missing_channel_fails() {
    let mut hub = Hub::new();
    hub.connect();
    let (msg, deliveries) =
        hub.create_message(99, 1, "hi".to_string(), sample_user(2, "b"), 1700000001);
    assert!(msg.is_none());
    assert!(deliveries.is_empty());
}

#[test]
fn disconnect_broadcasts_left_to_remaining_members() {
    let mut hub = Hub::new();
    let (a, _) = hub.connect();
    let (b, _) = hub.connect();
    hub.create_channel(10, None, "general".to_string());
    let deliveries = hub.disconnect(a);
    assert_eq!(targets(&deliveries), vec![b]);
    match &deliveries[0].event {
        Event::Custom(text) => assert_eq!(text, &format!("{} left", a)),
        _ => panic!("expected a Custom farewell"),
    }
    assert!(!hub.contains_session(a));
    assert!(!hub.list_channels()[0].sessions.contains(&a));
    assert_eq!(hub.visitor_count, 1);
}

#[test]
fn disconnect_twice_is_idempotent() {
    let mut hub = Hub::new();
    let (a, _) = hub.connect();
    let (b, _) = hub.connect();
    hub.create_channel(10, None, "general".to_string());
    let first = hub.disconnect(a);
    assert_eq!(first.len(), 1);
    let count_after = hub.visitor_count;
    let members_after = hub.list_channels()[0].sessions.clone();
    let second = hub.disconnect(a);
    assert!(second.is_empty(), "a second disconnect must broadcast nothing");
    assert_eq!(hub.visitor_count, count_after);
    assert_eq!(hub.list_channels()[0].sessions, members_after);
    assert!(hub.contains_session(b));
}

#[test]
fn disconnect_unknown_id_is_a_no_op() {
    let mut hub = Hub::new();
    hub.connect();
    let deliveries = hub.disconnect(987654);
    assert!(deliveries.is_empty());
    assert_eq!(hub.visitor_count, 1);
}

#[test]
fn identify_malformed_token_pushes_one_bad_token_and_keeps_session() {
    let mut hub = Hub::new();
    let (a, _) = hub.connect();
    let (decision, deliveries) = hub.identify_begin(a, "not-a-uuid");
    assert_eq!(decision, IdentifyDecision::Malformed);
    assert_eq!(deliveries.len(), 1);
    assert_eq!(deliveries[0].to, a);
    assert!(matches!(deliveries[0].event, Event::BadToken));
    assert!(hub.contains_session(a), "a bad token must not evict the session");
}

#[test]
fn identify_wellformed_token_asks_for_lookup() {
    let mut hub = Hub::new();
    let (a, _) = hub.connect();
    let (decision, deliveries) =
        hub.identify_begin(a, "550e8400-e29b-41d4-a716-446655440000");
    assert_eq!(decision, IdentifyDecision::Lookup);
    assert!(deliveries.is_empty());
}

#[test]
fn identify_unknown_session_is_silent() {
    let hub = Hub::new();
    let (decision, deliveries) =
        hub.identify_begin(5, "550e8400-e29b-41d4-a716-446655440000");
    assert_eq!(decision, IdentifyDecision::Absent);
    assert!(deliveries.is_empty());
}

#[test]
fn identify_failed_lookup_is_non_destructive() {
    let mut hub = Hub::new();
    let (a, _) = hub.connect();
    hub.create_channel(10, None, "general".to_string());
    let count_before = hub.visitor_count;
    let deliveries = hub.identify_finish(a, "tok".to_string(), None, Vec::new());
    assert_eq!(deliveries.len(), 1);
    assert_eq!(deliveries[0].to, a);
    assert!(matches!(deliveries[0].event, Event::BadToken));
    assert!(hub.contains_session(a));
    assert_eq!(hub.visitor_count, count_before);
    assert_eq!(hub.list_channels().len(), 1);
}

#[test]
fn identify_success_sends_set_token_then_ready() {
    let mut hub = Hub::new();
    let (a, _) = hub.connect();
    hub.create_channel(10, None, "general".to_string());
    let user = sample_user(7, "alice");
    let roster = vec![sample_user(7, "alice"), sample_user(8, "bob")];
    let deliveries =
        hub.identify_finish(a, "tok".to_string(), Some(user), roster);
    assert_eq!(deliveries.len(), 2);
    assert_eq!(deliveries[0].to, a);
    assert_eq!(deliveries[1].to, a);
    match &deliveries[0].event {
        Event::SetToken(t) => assert_eq!(t, "tok"),
        _ => panic!("expected SetToken first"),
    }
    match &deliveries[1].event {
        Event::Ready(ready) => {
            assert_eq!(ready.channels.len(), 1);
            assert_eq!(ready.channels[0].id, 10);
            assert_eq!(ready.user.username, "alice");
            assert_eq!(ready.users.len(), 2);
        }
        _ => panic!("expected Ready second"),
    }
}

#[test]
fn startup_load_seeds_the_table_and_drops_duplicate_ids() {
    let mut hub = Hub::new();
    let seed = |id: i64, name: &str| shiki::hub::Channel {
        id,
        guild_id: None,
        name: name.to_string(),
        sessions: Vec::new(),
    };
    hub.load_channels(vec![seed(1, "main"), seed(2, "dev"), seed(1, "imposter")]);
    let channels = hub.list_channels();
    assert_eq!(channels.len(), 2);
    assert_eq!((channels[0].id, channels[0].name.as_str()), (1, "main"));
    assert_eq!((channels[1].id, channels[1].name.as_str()), (2, "dev"));
    assert!(channels.iter().all(|c| c.sessions.is_empty()));

    // A session connecting after the load becomes a member of every loaded
    // channel.
    let (a, _) = hub.connect();
    assert!(hub.list_channels().iter().all(|c| c.sessions.contains(&a)));
}

#[test]
fn channel_created_in_an_empty_hub_has_no_members_and_no_deliveries() {
    let mut hub = Hub::new();
    let (created, deliveries) = hub.create_channel(10, None, "general".to_string());
    let channel = created.expect("fresh id must create");
    assert!(channel.sessions.is_empty());
    assert!(deliveries.is_empty());
    assert_eq!(hub.visitor_count, 0);
}

#[test]
fn joining_a_channel_twice_keeps_membership_single() {
    let mut hub = Hub::new();
    let (a, _) = hub.connect();
    hub.create_channel(10, None, "general".to_string());
    let (first, _) = hub.join(a, 10);
    let (second, _) = hub.join(a, 10);
    assert!(first.is_some() && second.is_some());
    let members = hub.list_channels()[0].sessions.clone();
    assert_eq!(members.iter().filter(|m| **m == a).count(), 1);
}

#[test]
fn full_gateway_scenario() {
    // Session A connects and is greeted.
    let mut hub = Hub::new();
    let (a, hello_a) = hub.connect();
    assert!(matches!(hello_a[0].event, Event::Hello));

    // Session B connects and is greeted; both belong to all channels so far.
    let (b, hello_b) = hub.connect();
    assert!(matches!(hello_b[0].event, Event::Hello));

    // A creates channel 10 "general": both A and B are members of it, and
    // both receive ChannelCreate.
    let (created, creations) = hub.create_channel(10, None, "general".to_string());
    let channel = created.expect("fresh id must create");
    assert!(channel.sessions.contains(&a) && channel.sessions.contains(&b));
    let ts = targets(&creations);
    assert!(ts.contains(&a) && ts.contains(&b));
    for d in &creations {
        match &d.event {
            Event::ChannelCreate(p) => {
                assert_eq!((p.id, p.name.as_str()), (10, "general"));
            }
            _ => panic!("expected ChannelCreate"),
        }
    }

    // B sends a message in channel 10: both A and B receive it.
    let (_msg, messages) =
        hub.create_message(10, 900, "hi".to_string(), sample_user(8, "b"), 1700000002);
    let ts = targets(&messages);
    assert!(ts.contains(&a) && ts.contains(&b));
    for d in &messages {
        match &d.event {
            Event::MessageCreate(p) => {
                assert_eq!(p.channel_id, 10);
                assert_eq!(p.content, "hi");
                assert_eq!(p.author.id, 8);
            }
            _ => panic!("expected MessageCreate"),
        }
    }

    // A disconnects: B receives one farewell per channel A belonged to.
    let farewells = hub.disconnect(a);
    assert_eq!(targets(&farewells), vec![b]);
    match &farewells[0].event {
        Event::Custom(text) => assert_eq!(text, &format!("{} left", a)),
        _ => panic!("expected a Custom farewell"),
    }
}
