use feed_rankings::events::{
    parse_feed_event, parse_user_event, EventDecodeError, FeedCommentedEvent, FeedCreatedEvent,
    FeedEvent, FeedEventType, FeedLikedEvent, FeedViewedEvent, UserCreatedEvent, UserEventType,
};

#[test]
fn decodes_a_like() {
    let p = r#"{"event_type":"liked","feed_id":42,"user_id":7,"timestamp":"2024-01-01T00:00:00+00:00"}"#;
    match parse_feed_event(p) {
        Ok(FeedEvent::Liked(e)) => {
            assert_eq!(e.event_type, FeedEventType::Liked);
            assert_eq!(e.feed_id, 42);
            assert_eq!(e.user_id, 7);
            assert_eq!(e.timestamp, "2024-01-01T00:00:00+00:00");
        }
        other => panic!("unexpected {:?}", other),
    }
}

#[test]
fn decodes_a_comment_with_its_text() {
    let p = r#"{"event_type":"commented","feed_id":5,"user_id":9,"comment_id":"c-1","content":"nice \"post\"","timestamp":"t"}"#;
    match parse_feed_event(p) {
        Ok(FeedEvent::Commented(e)) => {
            assert_eq!(e.feed_id, 5);
            assert_eq!(e.user_id, 9);
            assert_eq!(e.comment_id, "c-1");
            assert_eq!(e.content, "nice \"post\"");
        }
        other => panic!("unexpected {:?}", other),
    }
}

#[test]
fn decodes_an_anonymous_view_and_a_creation() {
    match parse_feed_event(r#"{"event_type":"viewed","feed_id":3,"user_id":0}"#) {
        Ok(FeedEvent::Viewed(e)) => {
            assert_eq!((e.feed_id, e.user_id), (3, 0));
            assert_eq!(e.timestamp, "");
        }
        other => panic!("unexpected {:?}", other),
    }
    match parse_feed_event(r#"{"event_type":"created","feed_id":11,"user_id":2,"content":"hi"}"#) {
        Ok(FeedEvent::Created(e)) => {
            assert_eq!((e.feed_id, e.user_id), (11, 2));
            assert_eq!(e.content, "hi");
        }
        other => panic!("unexpected {:?}", other),
    }
}

#[test]
fn decode_errors_by_kind() {
    assert!(matches!(parse_feed_event("not json"), Err(EventDecodeError::Malformed)));
    assert!(matches!(
        parse_feed_event(r#"{"feed_id":1,"user_id":2}"#),
        Err(EventDecodeError::MissingEventType)
    ));
    assert!(matches!(
        parse_feed_event(r#"{"event_type":"shared","feed_id":1,"user_id":2}"#),
        Err(EventDecodeError::UnknownEventType)
    ));
    assert!(matches!(
        parse_feed_event(r#"{"event_type":"Liked","feed_id":1,"user_id":2}"#),
        Err(EventDecodeError::UnknownEventType)
    ));
    assert!(matches!(
        parse_feed_event(r#"{"event_type":"liked","feed_id":"1","user_id":2}"#),
        Err(EventDecodeError::MissingField)
    ));
    assert!(matches!(
        parse_feed_event(r#"{"event_type":"commented","feed_id":1,"user_id":2}"#),
        Err(EventDecodeError::MissingField)
    ));
}

#[test]
fn tags_name_the_kinds() {
    for k in [
        FeedEventType::Created,
        FeedEventType::Liked,
        FeedEventType::Commented,
        FeedEventType::Viewed,
    ] {
        assert_eq!(FeedEventType::from_tag(k.tag()), Some(k));
    }
    assert_eq!(FeedEventType::Commented.tag(), "commented");
    assert_eq!(FeedEventType::from_tag("viewed "), None);
}

#[test]
fn constructors_keep_their_fields_and_stamp_the_time() {
    let c = FeedCreatedEvent::new(8, 2, "text".to_string());
    assert_eq!((c.event_type, c.feed_id, c.user_id), (FeedEventType::Created, 8, 2));
    assert_eq!(c.content, "text");
    assert!(!c.timestamp.is_empty());
    let l = FeedLikedEvent::new(42, 7);
    assert_eq!((l.event_type, l.feed_id, l.user_id), (FeedEventType::Liked, 42, 7));
    assert!(!l.timestamp.is_empty());
    let m = FeedCommentedEvent::new(1, 2, "id".to_string(), "hello".to_string());
    assert_eq!((m.comment_id.as_str(), m.content.as_str()), ("id", "hello"));
    let v = FeedViewedEvent::new(4, 0);
    assert_eq!((v.event_type, v.user_id), (FeedEventType::Viewed, 0));
    let u = UserCreatedEvent::new(5, "a@b.c".to_string(), "ann".to_string());
    assert_eq!((u.event_type, u.user_id), (UserEventType::UserCreated, 5));
    assert_eq!((u.email.as_str(), u.username.as_str()), ("a@b.c", "ann"));
}

#[test]
fn decodes_identity_events() {
    let p = r#"{"event_type":"user_created","user_id":5,"email":"a@b.c","username":"ann","timestamp":"t"}"#;
    let e = parse_user_event(p).unwrap();
    assert_eq!(e.user_id, 5);
    assert_eq!(e.username, "ann");
    assert!(matches!(
        parse_user_event(r#"{"event_type":"liked","user_id":5}"#),
        Err(EventDecodeError::UnknownEventType)
    ));
    assert!(matches!(
        parse_user_event(r#"{"event_type":"user_created"}"#),
        Err(EventDecodeError::MissingField)
    ));
}
