use nt_session::{
    flush_cache, note_replay, write_echo, publish_value, start_client, value_to_type, ConnectionState, PublishersState,
    SessionError, Value, WireType, WritingCacheState,
};

fn double(x: f64) -> Value {
    Value::Double(x.to_bits())
}

#[test]
fn write_while_disconnected_is_cached_then_flushed() {
    let conn: ConnectionState<&str> = ConnectionState::new();
    let pubs: PublishersState<u32> = PublishersState::new();
    let mut cache = WritingCacheState::new();
    let topic = String::from("robot/speed");
    let echo = write_echo(&topic, double(4.0)).unwrap();
    assert_eq!(echo.timestamp, 0);
    assert_eq!(echo.topic_name, "robot/speed");
    assert_eq!(echo.data, double(4.0));
    assert_eq!(echo.wire_type, WireType::Double);
    assert!(cache.is_empty());
    let out = nt_session::session::write(topic.clone(), double(4.0), &conn, &pubs, &mut cache).unwrap();
    assert!(out.is_none());
    assert_eq!(cache.pending_value(&topic), Some(&double(4.0)));

    let mut conn = conn;
    let mut pubs = pubs;
    let plan = start_client("client", &mut conn, &mut pubs, &mut cache);
    assert!(plan.previous.is_none());
    assert_eq!(conn.current(), Some(&"client"));
    assert!(cache.is_empty());
    assert_eq!(plan.flush.len(), 1);
    let step = &plan.flush[0];
    assert_eq!(step.topic, "robot/speed");
    assert_eq!(step.value, double(4.0));
    assert_eq!(step.value, Value::Double(0x4010000000000000));
    assert_eq!(step.wire_type, WireType::Double);
    assert!(step.needs_publisher);
}

#[test]
fn last_write_wins_while_disconnected() {
    let mut conn: ConnectionState<u8> = ConnectionState::new();
    let mut pubs: PublishersState<u32> = PublishersState::new();
    let mut cache = WritingCacheState::new();
    nt_session::session::write(String::from("a"), double(1.0), &conn, &pubs, &mut cache).unwrap();
    nt_session::session::write(String::from("b"), Value::Boolean(true), &conn, &pubs, &mut cache).unwrap();
    nt_session::session::write(String::from("a"), double(2.5), &conn, &pubs, &mut cache).unwrap();
    nt_session::session::write(String::from("c"), Value::Str(String::from("x")), &conn, &pubs, &mut cache).unwrap();
    nt_session::session::write(String::from("b"), Value::Boolean(false), &conn, &pubs, &mut cache).unwrap();
    let plan = start_client(1, &mut conn, &mut pubs, &mut cache);
    assert!(cache.is_empty());
    let got: Vec<(String, Value, WireType)> = plan
        .flush
        .into_iter()
        .map(|s| (s.topic, s.value, s.wire_type))
        .collect();
    assert_eq!(
        got,
        vec![
            (String::from("a"), double(2.5), WireType::Double),
            (String::from("b"), Value::Boolean(false), WireType::Boolean),
            (String::from("c"), Value::Str(String::from("x")), WireType::String),
        ]
    );
}

#[test]
fn write_while_connected_is_not_cached() {
    let mut conn: ConnectionState<u8> = ConnectionState::new();
    let mut pubs: PublishersState<u32> = PublishersState::new();
    let mut cache = WritingCacheState::new();
    start_client(7, &mut conn, &mut pubs, &mut cache);
    let out = nt_session::session::write(String::from("t"), double(3.0), &conn, &pubs, &mut cache).unwrap();
    assert!(cache.is_empty());
    let step = out.unwrap();
    assert_eq!(step.topic, "t");
    assert_eq!(step.value, double(3.0));
    assert!(step.needs_publisher);
}

#[test]
fn publisher_created_once_then_reused() {
    let mut conn: ConnectionState<u8> = ConnectionState::new();
    let mut pubs: PublishersState<u32> = PublishersState::new();
    let mut cache = WritingCacheState::new();
    start_client(1, &mut conn, &mut pubs, &mut cache);
    let topic = String::from("status");
    let first = nt_session::session::write(topic.clone(), Value::Str(String::from("ok")), &conn, &pubs, &mut cache)
        .unwrap()
        .unwrap();
    assert!(first.needs_publisher);
    assert_eq!(first.wire_type, WireType::String);
    assert_eq!(pubs.register(first.topic.clone(), 11), None);
    assert_eq!(pubs.get(&topic), Some(&11));
    let second = nt_session::session::write(topic.clone(), Value::Str(String::from("ready")), &conn, &pubs, &mut cache)
        .unwrap()
        .unwrap();
    assert!(!second.needs_publisher);
    assert_eq!(second.value, Value::Str(String::from("ready")));
    assert_eq!(pubs.register(topic.clone(), 12), Some(12));
    assert_eq!(pubs.get(&topic), Some(&11));
}

#[test]
fn unsupported_value_is_rejected_without_change() {
    let mut conn: ConnectionState<u8> = ConnectionState::new();
    let mut pubs: PublishersState<u32> = PublishersState::new();
    let mut cache = WritingCacheState::new();
    nt_session::session::write(String::from("a"), double(1.0), &conn, &pubs, &mut cache).unwrap();
    let r = nt_session::session::write(String::from("a"), Value::Unsupported, &conn, &pubs, &mut cache);
    assert!(matches!(r, Err(SessionError::UnsupportedValueType)));
    assert_eq!(cache.pending_value(&String::from("a")), Some(&double(1.0)));
    let r = nt_session::session::write(String::from("z"), Value::Unsupported, &conn, &pubs, &mut cache);
    assert!(r.is_err());
    assert_eq!(cache.pending_value(&String::from("z")), None);

    start_client(1, &mut conn, &mut pubs, &mut cache);
    let r = nt_session::session::write(String::from("q"), Value::Unsupported, &conn, &pubs, &mut cache);
    assert!(matches!(r, Err(SessionError::UnsupportedValueType)));
    assert!(cache.is_empty());
    assert!(!pubs.has_publisher(&String::from("q")));
}

#[test]
fn reconnect_replaces_connection_and_clears_publishers() {
    let mut conn: ConnectionState<u8> = ConnectionState::new();
    let mut pubs: PublishersState<u32> = PublishersState::new();
    let mut cache = WritingCacheState::new();
    let plan = start_client(1, &mut conn, &mut pubs, &mut cache);
    assert!(plan.previous.is_none());
    pubs.register(String::from("a"), 5);
    assert!(pubs.has_publisher(&String::from("a")));
    let plan = start_client(2, &mut conn, &mut pubs, &mut cache);
    assert_eq!(plan.previous, Some(1));
    assert_eq!(conn.current(), Some(&2));
    assert!(conn.is_connected());
    assert!(!pubs.has_publisher(&String::from("a")));
    assert!(plan.flush.is_empty());
}

#[test]
fn value_types() {
    assert_eq!(value_to_type(&double(0.5)).unwrap(), WireType::Double);
    assert_eq!(value_to_type(&Value::Str(String::new())).unwrap(), WireType::String);
    assert_eq!(value_to_type(&Value::Boolean(true)).unwrap(), WireType::Boolean);
    assert!(matches!(value_to_type(&Value::Unsupported), Err(SessionError::UnsupportedValueType)));
    assert_eq!(value_to_type(&Value::MalformedStr(vec![0xff, 0xfe])).unwrap(), WireType::String);
}

#[test]
fn flush_plans_against_registered_publishers() {
    let conn: ConnectionState<u8> = ConnectionState::new();
    let mut pubs: PublishersState<u32> = PublishersState::new();
    let mut cache = WritingCacheState::new();
    nt_session::session::write(String::from("a"), double(1.0), &conn, &pubs, &mut cache).unwrap();
    nt_session::session::write(String::from("b"), double(2.0), &conn, &pubs, &mut cache).unwrap();
    pubs.register(String::from("b"), 3);
    let steps = flush_cache(&mut cache, &pubs);
    assert!(cache.is_empty());
    assert_eq!(steps.len(), 2);
    assert!(steps[0].needs_publisher);
    assert!(!steps[1].needs_publisher);
    let step = publish_value(&String::from("b"), Value::Boolean(true), WireType::Boolean, &pubs);
    assert!(!step.needs_publisher);
    assert_eq!(step.value, Value::Boolean(true));
    pubs.clear();
    assert!(!pubs.has_publisher(&String::from("b")));
}

#[test]
fn default_states_are_empty() {
    let conn: ConnectionState<u8> = ConnectionState::default();
    assert!(!conn.is_connected());
    assert_eq!(conn.current(), None);
    let pubs: PublishersState<u32> = PublishersState::default();
    assert!(!pubs.has_publisher(&String::from("a")));
    let cache = WritingCacheState::default();
    assert!(cache.is_empty());
    let subs = nt_session::SubscriptionsState::default();
    assert!(!subs.is_subscribed_to(&String::from("a")));
}

#[test]
fn echo_rejects_unsupported_value() {
    let r = write_echo(&String::from("t"), Value::Unsupported);
    assert!(matches!(r, Err(SessionError::UnsupportedValueType)));
    let e = write_echo(&String::from("s"), Value::Boolean(true)).unwrap();
    assert_eq!(e.wire_type, WireType::Boolean);
    assert_eq!(e.data, Value::Boolean(true));
    assert_eq!(e.topic_name, "s");
}

#[test]
fn replay_reports_first_failure() {
    let mut first: Option<SessionError> = None;
    note_replay(&mut first, Ok(()));
    assert!(first.is_none());
    note_replay(&mut first, Err(SessionError::PublishError(String::from("one"))));
    note_replay(&mut first, Ok(()));
    note_replay(&mut first, Err(SessionError::PublishError(String::from("two"))));
    match first {
        Some(SessionError::PublishError(d)) => assert_eq!(d, "one"),
        other => panic!("unexpected {:?}", other),
    }
}

#[test]
fn malformed_string_is_cached_as_string() {
    let conn: ConnectionState<u8> = ConnectionState::new();
    let pubs: PublishersState<u32> = PublishersState::new();
    let mut cache = WritingCacheState::new();
    let v = Value::MalformedStr(vec![0x66, 0xff]);
    assert!(nt_session::session::write(String::from("m"), v, &conn, &pubs, &mut cache).is_ok());
    assert_eq!(
        cache.pending_value(&String::from("m")),
        Some(&Value::MalformedStr(vec![0x66, 0xff]))
    );
}
