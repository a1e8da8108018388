use nt_session::{subscribe, unsubscribe, SessionError, SubscriptionsState};

#[test]
fn subscribe_twice_unsubscribe_thrice() {
    let mut state = SubscriptionsState::new();
    let topic = String::from("robot/speed");
    assert_eq!(subscribe(topic.clone(), &mut state), Ok(()));
    assert_eq!(subscribe(topic.clone(), &mut state), Ok(()));
    assert!(unsubscribe(topic.clone(), &mut state).is_ok());
    assert!(state.is_subscribed_to(&topic));
    assert!(unsubscribe(topic.clone(), &mut state).is_ok());
    assert!(!state.is_subscribed_to(&topic));
    let third = unsubscribe(topic.clone(), &mut state);
    assert!(matches!(third, Err(SessionError::NotSubscribed)));
    assert!(!state.is_subscribed_to(&topic));
}

#[test]
fn unsubscribe_unknown_topic_fails_and_changes_nothing() {
    let mut state = SubscriptionsState::new();
    let kept = String::from("a");
    subscribe(kept.clone(), &mut state).unwrap();
    let r = unsubscribe(String::from("b"), &mut state);
    assert!(matches!(r, Err(SessionError::NotSubscribed)));
    assert_eq!(state.count_of(&kept), 1);
    assert_eq!(state.count_of(&String::from("b")), 0);
}

#[test]
fn counts_follow_calls() {
    let mut state = SubscriptionsState::new();
    let t = String::from("x/y");
    let ops = [true, true, false, true, false, false, false, true];
    let mut expected: u64 = 0;
    for op in ops {
        if op {
            subscribe(t.clone(), &mut state).unwrap();
            expected += 1;
        } else if expected == 0 {
            assert!(unsubscribe(t.clone(), &mut state).is_err());
        } else {
            unsubscribe(t.clone(), &mut state).unwrap();
            expected -= 1;
        }
        assert_eq!(state.count_of(&t), expected);
        assert_eq!(state.is_subscribed_to(&t), expected > 0);
    }
}

#[test]
fn topics_are_matched_exactly() {
    let mut state = SubscriptionsState::new();
    subscribe(String::from("robot/speed"), &mut state).unwrap();
    assert!(!state.is_subscribed_to(&String::from("robot")));
    assert!(!state.is_subscribed_to(&String::from("robot/speed/x")));
    assert!(!state.is_subscribed_to(&String::from("")));
    assert!(state.is_subscribed_to(&String::from("robot/speed")));
}

#[test]
fn error_messages() {
    assert_eq!(SessionError::NotSubscribed.message(), "Not subscribed to topic");
    assert_eq!(SessionError::InvalidAddress.message(), "InvalidIp");
    assert_eq!(SessionError::UnsupportedValueType.message(), "Not a valid nt Type");
    assert_eq!(SessionError::ConnectionFailed(String::from("timed out")).message(), "timed out");
    assert_eq!(SessionError::PublishError(String::from("closed")).message(), "closed");
    assert_eq!(SessionError::NotifyError(String::from("no window")).message(), "no window");
}
