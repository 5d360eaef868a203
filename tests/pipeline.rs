use std::collections::BTreeMap;

use feed_rankings::batch::{calculate_top_stats, rank_activity, window_start, ActivityRecord, TOP_LIMIT};
use feed_rankings::board::{increment_one, Board, StoreCommand};
use feed_rankings::consumer::{ConsumerAction, ConsumerState, DiscardReason, Received, Stream};
use feed_rankings::events::{EventDecodeError, FeedCommentedEvent, FeedEvent, FeedLikedEvent, FeedViewedEvent};
use feed_rankings::ranking::{
    join_top_feeds, join_top_users, rank_window, ranked_entries, FeedDetails, RankWindow,
    RankedMember, TopFeed, TopQuery, TopUser,
};
use feed_rankings::reactions::{
    build_notification, create_notification, handle_feed_commented_event,
    handle_feed_liked_event, handle_feed_viewed_event, ContentOwner, NotificationType,
};
use feed_rankings::tally::{rank_by_occurrence, tally, CountEntry};

/// A stand-in for the ranked store: member scores per collection.
#[derive(Clone, Debug, Default, PartialEq)]
struct FakeStore {
    boards: BTreeMap<String, BTreeMap<String, i64>>,
}

impl FakeStore {
    fn apply(&mut self, cmds: &[StoreCommand]) {
        for c in cmds {
            match c {
                StoreCommand::Increment { board, member, delta } => {
                    *self
                        .boards
                        .entry(board.key().to_string())
                        .or_default()
                        .entry(member.clone())
                        .or_insert(0) += delta;
                }
                StoreCommand::Clear { board } => {
                    self.boards.remove(board.key());
                }
                StoreCommand::Insert { board, member, score } => {
                    self.boards
                        .entry(board.key().to_string())
                        .or_default()
                        .insert(member.clone(), *score);
                }
            }
        }
    }

    fn score(&self, board: Board, member: &str) -> Option<i64> {
        self.boards.get(board.key()).and_then(|b| b.get(member).copied())
    }

    /// Members by descending score, ranks `start..=stop`.
    fn range(&self, board: Board, w: RankWindow) -> Vec<RankedMember> {
        let mut all: Vec<(String, i64)> = self
            .boards
            .get(board.key())
            .map(|b| b.iter().map(|(m, s)| (m.clone(), *s)).collect())
            .unwrap_or_default();
        all.sort_by(|a, b| b.1.cmp(&a.1).then(b.0.cmp(&a.0)));
        all.into_iter()
            .skip(w.start as usize)
            .take((w.stop - w.start + 1) as usize)
            .map(|(member, score)| RankedMember { member, score })
            .collect()
    }
}

fn owner(id: i64, name: &str) -> Option<ContentOwner> {
    Some(ContentOwner { user_id: id, username: name.to_string() })
}

#[test]
fn like_scenario_counts_and_notifies_the_owner() {
    let ev = FeedLikedEvent::new(42, 7);
    let r = handle_feed_liked_event(&ev, owner(3, "carol"));
    let mut store = FakeStore::default();
    store.apply(&r.commands);
    assert_eq!(store.score(Board::FeedsLiked, "42"), Some(1));
    assert_eq!(store.score(Board::UsersLiked, "3"), Some(1));
    let intent = r.notify.expect("a notification is owed");
    assert_eq!((intent.recipient, intent.actor, intent.feed_id), (3, 7, 42));
    assert_eq!(intent.kind, NotificationType::Like);
    let n = create_notification(&intent, Some("dave".to_string())).unwrap();
    assert_eq!((n.user_id, n.from_user_id, n.feed_id), (3, 7, 42));
    assert_eq!(n.notification_type, NotificationType::Like);
    assert_eq!(n.content, "dave liked your feed");
    assert!(!n.is_read);
    assert!(n.id.as_ref().map_or(false, |id| id.len() == 36));
}

#[test]
fn likes_accumulate_in_any_order() {
    let actors = [11i64, 12, 13, 14, 15];
    let mut forward = FakeStore::default();
    for a in actors {
        forward.apply(&handle_feed_liked_event(&FeedLikedEvent::new(9, a), owner(1, "o")).commands);
    }
    let mut backward = FakeStore::default();
    for a in actors.iter().rev() {
        backward.apply(&handle_feed_liked_event(&FeedLikedEvent::new(9, *a), owner(1, "o")).commands);
    }
    assert_eq!(forward.score(Board::FeedsLiked, "9"), Some(5));
    assert_eq!(forward.score(Board::UsersLiked, "1"), Some(5));
    assert_eq!(forward, backward);
}

#[test]
fn own_like_and_comment_count_without_notifying() {
    let like = handle_feed_liked_event(&FeedLikedEvent::new(5, 3), owner(3, "carol"));
    assert!(like.notify.is_none());
    assert_eq!(like.commands.len(), 2);
    let comment = handle_feed_commented_event(
        &FeedCommentedEvent::new(5, 3, "c".to_string(), "mine".to_string()),
        Some(3),
    );
    assert!(comment.notify.is_none());
    let mut store = FakeStore::default();
    store.apply(&comment.commands);
    assert_eq!(store.score(Board::Comments, "5"), Some(1));
}

#[test]
fn unresolved_like_is_dropped() {
    let r = handle_feed_liked_event(&FeedLikedEvent::new(5, 3), None);
    assert!(r.commands.is_empty());
    assert!(r.notify.is_none());
}

#[test]
fn comment_counts_even_when_content_is_missing() {
    let ev = FeedCommentedEvent::new(6, 8, "c".to_string(), "hello".to_string());
    let missing = handle_feed_commented_event(&ev, None);
    let mut store = FakeStore::default();
    store.apply(&missing.commands);
    assert_eq!(store.score(Board::Comments, "6"), Some(1));
    assert!(missing.notify.is_none());
    let found = handle_feed_commented_event(&ev, Some(2));
    let intent = found.notify.unwrap();
    assert_eq!((intent.recipient, intent.actor, intent.kind), (2, 8, NotificationType::Comment));
    let n = build_notification(&intent, "eve".to_string(), "n-1".to_string(), 1700000000);
    assert_eq!(n.content, "hello");
    assert_eq!(n.from_username, "eve");
    assert_eq!(n.id.as_deref(), Some("n-1"));
    assert_eq!(n.created_at, 1700000000);
    assert!(create_notification(&intent, None).is_none());
}

#[test]
fn marking_read_flips_only_the_flag() {
    let ev = FeedCommentedEvent::new(6, 8, "c".to_string(), "hello".to_string());
    let intent = handle_feed_commented_event(&ev, Some(2)).notify.unwrap();
    let mut n = build_notification(&intent, "eve".to_string(), "n-1".to_string(), 5);
    n.mark_read();
    assert!(n.is_read);
    assert_eq!(n.content, "hello");
    assert_eq!(n.user_id, 2);
}

#[test]
fn anonymous_view_is_counted() {
    let r = handle_feed_viewed_event(&FeedViewedEvent::new(77, 0));
    let mut store = FakeStore::default();
    store.apply(&r.commands);
    assert_eq!(store.score(Board::FeedsViewed, "77"), Some(1));
    assert!(r.notify.is_none());
}

#[test]
fn board_keys() {
    assert_eq!(Board::UsersLiked.key(), "top:users_liked");
    assert_eq!(Board::Comments.key(), "top:comments");
    assert_eq!(Board::FeedsViewed.key(), "top:feeds_viewed");
    assert_eq!(Board::FeedsLiked.key(), "top:feeds_liked");
    for b in [Board::UsersLiked, Board::Comments, Board::FeedsViewed, Board::FeedsLiked] {
        assert_eq!(Board::from_key(b.key()), Some(b));
    }
    assert_eq!(Board::from_key("top:feeds"), None);
    assert!(Board::UsersLiked.ranks_users());
    assert!(!Board::FeedsLiked.ranks_users());
    match increment_one(Board::Comments, -3) {
        StoreCommand::Increment { board, member, delta } => {
            assert_eq!((board, member.as_str(), delta), (Board::Comments, "-3", 1));
        }
        other => panic!("unexpected {:?}", other),
    }
}

#[test]
fn tally_counts_each_id_once() {
    let t = tally(&vec![5, 3, 5, 7, 3, 5]);
    assert_eq!(
        t,
        vec![
            CountEntry { id: 5, count: 3 },
            CountEntry { id: 3, count: 2 },
            CountEntry { id: 7, count: 1 }
        ]
    );
    assert!(tally(&vec![]).is_empty());
}

#[test]
fn ranking_keeps_the_most_frequent() {
    let ids = vec![5, 3, 5, 7, 3, 5, 9, 9];
    assert_eq!(
        rank_by_occurrence(&ids, 2),
        vec![CountEntry { id: 5, count: 3 }, CountEntry { id: 3, count: 2 }]
    );
    assert_eq!(
        rank_by_occurrence(&ids, 10),
        vec![
            CountEntry { id: 5, count: 3 },
            CountEntry { id: 3, count: 2 },
            CountEntry { id: 9, count: 2 },
            CountEntry { id: 7, count: 1 }
        ]
    );
    assert!(rank_by_occurrence(&ids, 0).is_empty());
    assert!(rank_by_occurrence(&vec![], 5).is_empty());
}

#[test]
fn activity_outside_the_window_is_not_counted() {
    let now = 1_700_000_000i64;
    let since = window_start(now);
    assert_eq!(since, now - 7 * 24 * 3600);
    assert_eq!(window_start(i64::MIN + 5), i64::MIN);
    let records = vec![
        ActivityRecord { feed_id: 1, created_at: since - 1 },
        ActivityRecord { feed_id: 1, created_at: since - 100 },
        ActivityRecord { feed_id: 2, created_at: since },
        ActivityRecord { feed_id: 1, created_at: now },
    ];
    assert_eq!(
        rank_activity(&records, since),
        vec![CountEntry { id: 1, count: 1 }, CountEntry { id: 2, count: 1 }]
    );
    assert_eq!(TOP_LIMIT, 1000);
}

#[test]
fn activity_ranking_stops_at_the_limit() {
    let records: Vec<ActivityRecord> =
        (0..1500).map(|i| ActivityRecord { feed_id: i, created_at: 10 }).collect();
    let r = rank_activity(&records, 0);
    assert_eq!(r.len(), TOP_LIMIT);
    assert_eq!(r[0], CountEntry { id: 0, count: 1 });
    assert_eq!(r[999], CountEntry { id: 999, count: 1 });
}

fn top_feed(id: i64, count: i64) -> TopFeed {
    TopFeed { feed_id: id, user_id: 1, username: "u".to_string(), content: "c".to_string(), count }
}

#[test]
fn batch_replaces_each_collection() {
    let users = vec![TopUser { user_id: 3, username: "carol".to_string(), total_likes: 4 }];
    let commented = vec![top_feed(10, 2)];
    let viewed = vec![top_feed(11, 9), top_feed(12, 1)];
    let liked: Vec<TopFeed> = vec![];
    let cmds = calculate_top_stats(&users, &commented, &viewed, &liked);
    assert_eq!(cmds.len(), 8);
    assert!(matches!(cmds[0], StoreCommand::Clear { board: Board::UsersLiked }));
    assert!(matches!(&cmds[1], StoreCommand::Insert { board: Board::UsersLiked, member, score: 4 } if member == "3"));
    assert!(matches!(cmds[2], StoreCommand::Clear { board: Board::Comments }));
    assert!(matches!(cmds[7], StoreCommand::Clear { board: Board::FeedsLiked }));
    let mut store = FakeStore::default();
    store.apply(&handle_feed_liked_event(&FeedLikedEvent::new(99, 2), owner(1, "o")).commands);
    store.apply(&cmds);
    assert_eq!(store.score(Board::FeedsLiked, "99"), None);
    assert_eq!(store.score(Board::FeedsViewed, "11"), Some(9));
    assert_eq!(store.score(Board::UsersLiked, "3"), Some(4));
}

#[test]
fn batch_twice_equals_batch_once() {
    let users = vec![TopUser { user_id: 3, username: "carol".to_string(), total_likes: 4 }];
    let feeds = vec![top_feed(10, 2), top_feed(12, 1)];
    let cmds = calculate_top_stats(&users, &feeds, &feeds, &feeds);
    let mut once = FakeStore::default();
    once.apply(&handle_feed_viewed_event(&FeedViewedEvent::new(50, 0)).commands);
    once.apply(&cmds);
    let mut twice = once.clone();
    twice.apply(&cmds);
    assert_eq!(once, twice);
}

#[test]
fn page_windows() {
    assert_eq!(rank_window(1, 10), Some(RankWindow { start: 0, stop: 9 }));
    assert_eq!(rank_window(2, 10), Some(RankWindow { start: 10, stop: 19 }));
    assert_eq!(rank_window(0, 10), None);
    assert_eq!(rank_window(1, 0), None);
    assert_eq!(rank_window(u64::MAX, u64::MAX), None);
    assert_eq!(
        rank_window(1, 9223372036854775808),
        Some(RankWindow { start: 0, stop: i64::MAX })
    );
    assert_eq!(
        TopQuery { page: None, limit: None }.window(),
        Some(RankWindow { start: 0, stop: 9 })
    );
    assert_eq!(
        TopQuery { page: Some(3), limit: None }.window(),
        Some(RankWindow { start: 20, stop: 29 })
    );
}

#[test]
fn second_page_of_fifteen_has_the_last_five() {
    let mut store = FakeStore::default();
    let feeds: Vec<TopFeed> = (1..=15).map(|i| top_feed(i, 100 - i)).collect();
    store.apply(&calculate_top_stats(&vec![], &vec![], &vec![], &feeds));
    let w = rank_window(2, 10).unwrap();
    let page = store.range(Board::FeedsLiked, w);
    let ranked = ranked_entries(&page);
    let details: Vec<Option<FeedDetails>> = ranked
        .iter()
        .map(|e| {
            Some(FeedDetails {
                user_id: 1,
                username: "u".to_string(),
                content: format!("post {}", e.id),
            })
        })
        .collect();
    let top = join_top_feeds(&ranked, &details);
    assert!(top.len() <= 5);
    assert_eq!(top.iter().map(|f| f.feed_id).collect::<Vec<_>>(), vec![11, 12, 13, 14, 15]);
    assert!(top.windows(2).all(|p| p[0].count >= p[1].count));
    assert_eq!(top[0].content, "post 11");
}

#[test]
fn missing_records_are_dropped_without_reordering() {
    let page = vec![
        RankedMember { member: "8".to_string(), score: 30 },
        RankedMember { member: "x".to_string(), score: 20 },
        RankedMember { member: "6".to_string(), score: 20 },
        RankedMember { member: "5".to_string(), score: 10 },
    ];
    let ranked = ranked_entries(&page);
    assert_eq!(
        ranked,
        vec![
            CountEntry { id: 8, count: 30 },
            CountEntry { id: 6, count: 20 },
            CountEntry { id: 5, count: 10 }
        ]
    );
    let names = vec![Some("ann".to_string()), None, Some("bob".to_string())];
    let users = join_top_users(&ranked, &names);
    assert_eq!(users.len(), 2);
    assert_eq!((users[0].user_id, users[0].username.as_str(), users[0].total_likes), (8, "ann", 30));
    assert_eq!((users[1].user_id, users[1].username.as_str(), users[1].total_likes), (5, "bob", 10));
    assert!(join_top_users(&ranked, &vec![]).is_empty());
    assert!(join_top_users(&vec![], &names).is_empty());
}

fn message(topic: &str, payload: Option<&str>) -> Received {
    Received::Message {
        topic: topic.to_string(),
        key: "1".to_string(),
        payload: payload.map(|p| p.to_string()),
    }
}

#[test]
fn unknown_event_type_does_not_stop_the_stream() {
    let mut state = ConsumerState::new();
    let bad = state.step(&message("content-events", Some(r#"{"event_type":"shared","feed_id":1,"user_id":2}"#)));
    assert!(matches!(
        bad,
        ConsumerAction::Discard(DiscardReason::Undecodable(EventDecodeError::UnknownEventType))
    ));
    let good = state.step(&message("content-events", Some(r#"{"event_type":"liked","feed_id":1,"user_id":2}"#)));
    match good {
        ConsumerAction::HandleFeed(FeedEvent::Liked(e)) => assert_eq!((e.feed_id, e.user_id), (1, 2)),
        other => panic!("unexpected {:?}", other),
    }
    assert_eq!(state, ConsumerState { dispatched: 1, discarded: 1, transport_errors: 0 });
}

#[test]
fn consumer_decisions() {
    let mut state = ConsumerState::new();
    assert!(matches!(state.step(&Received::TransportError), ConsumerAction::Backoff { millis: 1000 }));
    assert!(matches!(
        state.step(&message("other-events", Some("{}"))),
        ConsumerAction::Discard(DiscardReason::UnknownTopic)
    ));
    assert!(matches!(
        state.step(&message("content-events", None)),
        ConsumerAction::Discard(DiscardReason::EmptyPayload)
    ));
    assert!(matches!(
        state.step(&message("content-events", Some("{"))),
        ConsumerAction::Discard(DiscardReason::Undecodable(EventDecodeError::Malformed))
    ));
    assert!(matches!(
        state.step(&message("identity-events", Some(r#"{"event_type":"user_created","user_id":4}"#))),
        ConsumerAction::HandleUser(_)
    ));
    assert_eq!(state, ConsumerState { dispatched: 1, discarded: 3, transport_errors: 1 });
    assert_eq!(Stream::Content.topic(), "content-events");
    assert_eq!(Stream::from_topic("identity-events"), Some(Stream::Identity));
    assert_eq!(Stream::from_topic("feed_events"), None);
}
