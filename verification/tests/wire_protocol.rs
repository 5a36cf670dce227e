use shiki::encode::outbound_text;
use shiki::events::{ChannelCreate, Event, HasOpcode, MessageCreate, Ready, User};
use shiki::hub::Channel;
use shiki::protocol::{decode_text, EnvelopeAction, Opcode, ParseError};
use shiki::session::{GatewaySession, HeartbeatAction, Phase};

/// Builds the `{"op": <op>, "d": <payload>}` envelope exactly as
/// `serde_json` prints it: object keys in lexicographic order.
fn expected_envelope(op: u8, payload: serde_json::Value) -> String {
    let mut map = serde_json::Map::new();
    map.insert("op".to_string(), serde_json::Value::from(op));
    map.insert("d".to_string(), payload);
    serde_json::to_string(&serde_json::Value::Object(map)).unwrap()
}

#[test]
fn opcode_values_are_stable() {
    assert_eq!(Opcode::Identify.value(), 0);
    assert_eq!(Opcode::Ready.value(), 1);
    assert_eq!(Opcode::MessageCreate.value(), 2);
    assert_eq!(Opcode::ChannelCreate.value(), 3);
    assert_eq!(Opcode::Custom.value(), 4);
    assert_eq!(<Ready as HasOpcode>::opcode(), Opcode::Ready);
    assert_eq!(<MessageCreate as HasOpcode>::opcode(), Opcode::MessageCreate);
    assert_eq!(<ChannelCreate as HasOpcode>::opcode(), Opcode::ChannelCreate);
}

#[test]
fn opcode_from_json_reads_the_extracted_member() {
    let v: serde_json::Value = serde_json::from_str("{\"op\":0}").unwrap();
    assert_eq!(Opcode::from_json(v.get("op")), Some(Opcode::Identify));
    assert_eq!(Opcode::from_json(v.get("missing")), None);
    let v: serde_json::Value = serde_json::from_str("{\"op\":\"x\"}").unwrap();
    assert_eq!(Opcode::from_json(v.get("op")), None);
    let v: serde_json::Value = serde_json::from_str("{\"op\":7}").unwrap();
    assert_eq!(Opcode::from_json(v.get("op")), None);
}

#[test]
fn inbound_opcodes_decode_and_unknown_are_rejected() {
    assert_eq!(Opcode::from_u64(0), Some(Opcode::Identify));
    assert_eq!(Opcode::from_u64(1), Some(Opcode::Ready));
    assert_eq!(Opcode::from_u64(2), Some(Opcode::MessageCreate));
    assert_eq!(Opcode::from_u64(3), Some(Opcode::ChannelCreate));
    assert_eq!(Opcode::from_u64(4), None);
    assert_eq!(Opcode::from_u64(255), None);
}

#[test]
fn channel_create_envelope_matches_serde_json() {
    let event = Event::ChannelCreate(ChannelCreate::new(10, "general".to_string()));
    let mut payload = serde_json::Map::new();
    payload.insert("id".to_string(), serde_json::Value::from(10i64));
    payload.insert("name".to_string(), serde_json::Value::from("general"));
    let expected = expected_envelope(3, serde_json::Value::Object(payload));
    assert_eq!(outbound_text(&event), expected);
}

#[test]
fn message_create_envelope_matches_serde_json() {
    let author = User::new(7, "alice".to_string(), 1700000000, Some("http://a/b.png".to_string()));
    let event = Event::MessageCreate(MessageCreate::new(900, "hi there".to_string(), 10, author));
    let mut author_json = serde_json::Map::new();
    author_json.insert("avatar".to_string(), serde_json::Value::from("http://a/b.png"));
    author_json.insert("id".to_string(), serde_json::Value::from(7i64));
    author_json.insert("joined".to_string(), serde_json::Value::from(1700000000u64));
    author_json.insert("username".to_string(), serde_json::Value::from("alice"));
    let mut payload = serde_json::Map::new();
    payload.insert("author".to_string(), serde_json::Value::Object(author_json));
    payload.insert("channel_id".to_string(), serde_json::Value::from(10i64));
    payload.insert("content".to_string(), serde_json::Value::from("hi there"));
    payload.insert("id".to_string(), serde_json::Value::from(900i64));
    let expected = expected_envelope(2, serde_json::Value::Object(payload));
    assert_eq!(outbound_text(&event), expected);
}

#[test]
fn ready_envelope_round_trips_through_serde_json() {
    let channel = Channel {
        id: 10,
        guild_id: None,
        name: "general".to_string(),
        sessions: vec![1, 2],
    };
    let user = User::new(7, "alice".to_string(), 1700000000, None);
    let roster = vec![
        User::new(7, "alice".to_string(), 1700000000, None),
        User::new(8, "bob".to_string(), 1700000050, Some("x".to_string())),
    ];
    let event = Event::Ready(Ready::new(vec![channel], user, roster));
    let text = outbound_text(&event);
    let v: serde_json::Value = serde_json::from_str(&text).expect("must be valid JSON");
    assert_eq!(v.get("op").and_then(|o| o.as_u64()), Some(1));
    let d = v.get("d").expect("payload");
    let channels = d.get("channels").and_then(|c| c.as_array()).expect("channels");
    assert_eq!(channels.len(), 1);
    assert_eq!(channels[0].get("id").and_then(|x| x.as_i64()), Some(10));
    assert_eq!(
        channels[0].get("name").and_then(|x| x.as_str()),
        Some("general")
    );
    assert!(channels[0].get("guild_id").unwrap().is_null());
    // The member-session set is not serialized to the wire.
    assert!(channels[0].get("sessions").is_none());
    assert_eq!(
        d.get("user").and_then(|u| u.get("username")).and_then(|x| x.as_str()),
        Some("alice")
    );
    assert_eq!(d.get("users").and_then(|u| u.as_array()).map(|a| a.len()), Some(2));
}

#[test]
fn string_escaping_matches_serde_json() {
    let tricky = "a\"b\\c\nd\te\rf\u{8}g\u{c}h\u{1}i\u{1f}j snowman \u{2603}";
    let event = Event::SetToken(tricky.to_string());
    let expected = expected_envelope(4, serde_json::Value::from(tricky));
    assert_eq!(outbound_text(&event), expected);
}

#[test]
fn extreme_numbers_encode_exactly() {
    let event = Event::ChannelCreate(ChannelCreate::new(i64::MIN, "x".to_string()));
    let mut payload = serde_json::Map::new();
    payload.insert("id".to_string(), serde_json::Value::from(i64::MIN));
    payload.insert("name".to_string(), serde_json::Value::from("x"));
    let expected = expected_envelope(3, serde_json::Value::Object(payload));
    assert_eq!(outbound_text(&event), expected);

    let event = Event::ChannelCreate(ChannelCreate::new(i64::MAX, "x".to_string()));
    let text = outbound_text(&event);
    assert!(text.contains("9223372036854775807"));
}

#[test]
fn empty_ready_lists_encode_as_empty_arrays() {
    let user = User::new(7, "alice".to_string(), 1700000000, None);
    let event = Event::Ready(Ready::new(Vec::new(), user, Vec::new()));
    let text = outbound_text(&event);
    let v: serde_json::Value = serde_json::from_str(&text).unwrap();
    let d = v.get("d").unwrap();
    assert_eq!(d.get("channels").and_then(|c| c.as_array()).map(|a| a.len()), Some(0));
    assert_eq!(d.get("users").and_then(|c| c.as_array()).map(|a| a.len()), Some(0));
}

#[test]
fn custom_events_go_out_bare() {
    let event = Event::Custom("41 left".to_string());
    assert_eq!(outbound_text(&event), "41 left");
}

#[test]
fn custom_pushes_pass_through_the_session_bare() {
    let mut session = GatewaySession::new(0);
    session.on_connected(7);
    let frame = session.on_event(&Event::Custom("8 left".to_string()));
    assert_eq!(frame, "8 left");
    assert_eq!(session.phase, Phase::Anonymous);
    assert!(session.token.is_none());
}

#[test]
fn hello_and_bad_token_carry_an_empty_payload() {
    let expected = expected_envelope(4, serde_json::Value::from(""));
    assert_eq!(outbound_text(&Event::Hello), expected);
    assert_eq!(outbound_text(&Event::BadToken), expected);
}

#[test]
fn identify_frame_decodes_to_forward() {
    match decode_text("{\"op\":0,\"d\":{\"token\":\"abc\"}}") {
        EnvelopeAction::Forward(token) => assert_eq!(token, "abc"),
        _ => panic!("expected Forward"),
    }
}

#[test]
fn malformed_json_is_rejected() {
    match decode_text("{\"op\":0,") {
        EnvelopeAction::Reject(e) => {
            assert_eq!(e, ParseError::InvalidJson);
            assert_eq!(e.message(), "invalid json");
        }
        _ => panic!("expected Reject"),
    }
}

#[test]
fn missing_and_unknown_opcodes_are_rejected() {
    match decode_text("{\"d\":{}}") {
        EnvelopeAction::Reject(e) => assert_eq!(e.message(), "no opcode"),
        _ => panic!("expected Reject"),
    }
    match decode_text("{\"op\":9,\"d\":{}}") {
        EnvelopeAction::Reject(e) => assert_eq!(e, ParseError::NoOpcode),
        _ => panic!("expected Reject"),
    }
    match decode_text("{\"op\":\"zero\",\"d\":{}}") {
        EnvelopeAction::Reject(e) => assert_eq!(e, ParseError::NoOpcode),
        _ => panic!("expected Reject"),
    }
}

#[test]
fn missing_data_and_missing_token_are_rejected() {
    match decode_text("{\"op\":0}") {
        EnvelopeAction::Reject(e) => assert_eq!(e.message(), "no data"),
        _ => panic!("expected Reject"),
    }
    match decode_text("{\"op\":0,\"d\":{}}") {
        EnvelopeAction::Reject(e) => assert_eq!(e.message(), "no token"),
        _ => panic!("expected Reject"),
    }
    match decode_text("{\"op\":0,\"d\":{\"token\":5}}") {
        EnvelopeAction::Reject(e) => assert_eq!(e, ParseError::NoToken),
        _ => panic!("expected Reject"),
    }
}

#[test]
fn known_non_identify_opcodes_are_ignored() {
    assert!(matches!(decode_text("{\"op\":1,\"d\":{}}"), EnvelopeAction::Ignore));
    assert!(matches!(decode_text("{\"op\":2,\"d\":{}}"), EnvelopeAction::Ignore));
    assert!(matches!(decode_text("{\"op\":3,\"d\":{}}"), EnvelopeAction::Ignore));
}

#[test]
fn heartbeat_timeout_disconnects_once() {
    let mut session = GatewaySession::new(100);
    session.on_connected(41);
    assert_eq!(session.session_id, 41);
    assert_eq!(session.phase, Phase::Anonymous);

    // Within the window: ping.
    assert_eq!(session.on_heartbeat_tick(105), HeartbeatAction::Ping);
    // A liveness signal refreshes the window.
    session.on_pong(108);
    assert_eq!(session.on_heartbeat_tick(115), HeartbeatAction::Ping);
    // Silence past the window: fatal.
    assert_eq!(session.on_heartbeat_tick(119), HeartbeatAction::Disconnect);
    assert_eq!(session.phase, Phase::Closed);
    // The timer already told the hub, so closing emits no duplicate.
    assert!(!session.on_close());
}

#[test]
fn ping_is_answered_with_the_paired_pong() {
    let mut session = GatewaySession::new(100);
    session.on_connected(41);
    let reply = session.on_ping(106, vec![9, 8, 7]);
    assert_eq!(reply, vec![9, 8, 7]);
    assert_eq!(session.last_heartbeat, 106);
    // The ping counted as liveness: the next tick inside the window pings on.
    assert_eq!(session.on_heartbeat_tick(115), HeartbeatAction::Ping);
}

#[test]
fn close_emits_disconnect_exactly_once() {
    let mut session = GatewaySession::new(0);
    session.on_connected(7);
    assert!(session.on_close());
    assert!(!session.on_close());
}

#[test]
fn auth_timeout_drops_only_tokenless_sessions() {
    let mut session = GatewaySession::new(0);
    session.on_connected(7);
    let frame = session.on_event(&Event::SetToken("tok".to_string()));
    assert_eq!(frame, expected_envelope(4, serde_json::Value::from("tok")));
    assert_eq!(session.phase, Phase::Authenticated);
    assert!(!session.on_auth_timeout());

    let mut bare = GatewaySession::new(0);
    bare.on_connected(8);
    assert!(bare.on_auth_timeout());
    assert_eq!(bare.phase, Phase::Closed);
}

#[test]
fn rejected_frame_closes_the_session() {
    let mut session = GatewaySession::new(0);
    session.on_connected(7);
    match session.on_text("not json at all") {
        EnvelopeAction::Reject(e) => assert_eq!(e, ParseError::InvalidJson),
        _ => panic!("expected Reject"),
    }
    assert_eq!(session.phase, Phase::Closed);
}

#[test]
fn binary_frames_echo() {
    let session = GatewaySession::new(0);
    assert_eq!(session.on_binary(vec![1, 2, 3]), vec![1, 2, 3]);
}

#[test]
fn invalid_identify_token_leaves_connection_open_and_unauthenticated() {
    // The peer sends `{"op":0,"d":{"token":"not-a-uuid"}}`: the session
    // forwards the token, the hub answers `BadToken`, and the session is
    // neither closed nor authenticated.
    let mut hub = shiki::hub::Hub::new();
    let (sid, _) = hub.connect();
    let mut session = GatewaySession::new(0);
    session.on_connected(sid);

    let token = match session.on_text("{\"op\":0,\"d\":{\"token\":\"not-a-uuid\"}}") {
        EnvelopeAction::Forward(token) => token,
        _ => panic!("a well-formed Identify envelope must be forwarded"),
    };
    assert_eq!(session.phase, Phase::Anonymous);

    let (decision, deliveries) = hub.identify_begin(sid, &token);
    assert_eq!(decision, shiki::hub::IdentifyDecision::Malformed);
    assert_eq!(deliveries.len(), 1);
    assert!(matches!(deliveries[0].event, Event::BadToken));
    assert!(hub.contains_session(sid));
    assert_eq!(session.phase, Phase::Anonymous);
    assert!(session.token.is_none());
}
