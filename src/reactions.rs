//! The realtime aggregator: what each content event does to the ranked store,
//! and the notification it owes the content's owner.
//!
//! Each handler takes the event and what authoritative storage said about the
//! content's owner, and returns the store commands to apply and, when the
//! actor is not the owner, the notification to create once the actor's name
//! is known. Increments are used rather than snapshots, so handlers commute.

use vstd::prelude::*;

use crate::board::{
    all_increments, apply_op, apply_ops, increment_one, lemma_increment_runs_commute, ops_of,
    score, Board, Scores,
    StoreCommand, StoreOp,
};
use crate::decimal::decimal_text;
use crate::events::{FeedCommentedEvent, FeedEvent, FeedLikedEvent, FeedViewedEvent};
use crate::stamp::{fresh_id, unix_seconds_now};

verus! {

/// The kind of a notification.
#[derive(Clone, Copy, Debug, PartialEq, Eq, Structural)]
pub enum NotificationType {
    Like,
    Comment,
}

/// The owner of a piece of content and the owner's display name, as resolved
/// from authoritative storage.
#[derive(Clone, Debug)]
pub struct ContentOwner {
    pub user_id: i64,
    pub username: String,
}

/// A notification owed to `recipient` for `actor`'s action on `feed_id`; a
/// comment carries its text.
#[derive(Clone, Debug)]
pub struct NotifyIntent {
    pub recipient: i64,
    pub actor: i64,
    pub feed_id: i64,
    pub kind: NotificationType,
    pub comment: Option<String>,
}

/// What handling one event asks of the outside world.
#[derive(Clone, Debug)]
pub struct Reaction {
    /// Commands for the ranked store, in order.
    pub commands: Vec<StoreCommand>,
    /// A notification to create, once the actor's name is resolved.
    pub notify: Option<NotifyIntent>,
}

/// A notification for `user_id` about `from_user_id`'s action on `feed_id`.
#[derive(Clone, Debug)]
pub struct Notification {
    pub id: Option<String>,
    pub user_id: i64,
    pub from_user_id: i64,
    pub from_username: String,
    pub feed_id: i64,
    pub notification_type: NotificationType,
    pub content: String,
    /// Seconds since the Unix epoch.
    pub created_at: i64,
    pub is_read: bool,
}

/// The store operations of a like: one more like for the owner and for the
/// content, when the owner was resolved; nothing otherwise.
pub open spec fn liked_ops(ev: FeedLikedEvent, owner: Option<ContentOwner>) -> Seq<StoreOp> {
    match owner {
        Some(o) => seq![
            StoreOp::Increment(Board::UsersLiked, decimal_text(o.user_id as int), 1),
            StoreOp::Increment(Board::FeedsLiked, decimal_text(ev.feed_id as int), 1),
        ],
        None => seq![],
    }
}

/// The notification a like owes: to the resolved owner, unless the owner liked
/// their own content.
pub open spec fn liked_intent(ev: FeedLikedEvent, owner: Option<ContentOwner>) -> Option<NotifyIntent> {
    match owner {
        Some(o) => if o.user_id != ev.user_id {
            Some(
                NotifyIntent {
                    recipient: o.user_id,
                    actor: ev.user_id,
                    feed_id: ev.feed_id,
                    kind: NotificationType::Like,
                    comment: None,
                },
            )
        } else {
            None
        },
        None => None,
    }
}

/// The store operations of a comment: one more comment for the content,
/// whatever the owner's resolution gave.
pub open spec fn commented_ops(ev: FeedCommentedEvent) -> Seq<StoreOp> {
    seq![StoreOp::Increment(Board::Comments, decimal_text(ev.feed_id as int), 1)]
}

/// The notification a comment owes: to the resolved owner, unless the owner
/// commented on their own content; it carries the comment's text.
pub open spec fn commented_intent(ev: FeedCommentedEvent, owner_id: Option<i64>) -> Option<NotifyIntent> {
    match owner_id {
        Some(o) => if o != ev.user_id {
            Some(
                NotifyIntent {
                    recipient: o,
                    actor: ev.user_id,
                    feed_id: ev.feed_id,
                    kind: NotificationType::Comment,
                    comment: Some(ev.content),
                },
            )
        } else {
            None
        },
        None => None,
    }
}

/// The store operations of a view: one more view for the content, anonymous
/// viewers included.
pub open spec fn viewed_ops(ev: FeedViewedEvent) -> Seq<StoreOp> {
    seq![StoreOp::Increment(Board::FeedsViewed, decimal_text(ev.feed_id as int), 1)]
}

/// Handles a like, given the owner resolved for the liked content (`None` when
/// the content or its owner was not found, and the event is dropped).
pub fn handle_feed_liked_event(ev: &FeedLikedEvent, owner: Option<ContentOwner>) -> (r: Reaction)
    ensures
        ops_of(r.commands@) == liked_ops(*ev, owner),
        r.notify == liked_intent(*ev, owner),
{
    match owner {
        Some(o) => {
            let mut commands: Vec<StoreCommand> = Vec::new();
            commands.push(increment_one(Board::UsersLiked, o.user_id));
            commands.push(increment_one(Board::FeedsLiked, ev.feed_id));
            assert(ops_of(commands@) =~= liked_ops(*ev, Some(o)));
            let notify = if o.user_id != ev.user_id {
                Some(
                    NotifyIntent {
                        recipient: o.user_id,
                        actor: ev.user_id,
                        feed_id: ev.feed_id,
                        kind: NotificationType::Like,
                        comment: None,
                    },
                )
            } else {
                None
            };
            Reaction { commands, notify }
        },
        None => {
            let commands: Vec<StoreCommand> = Vec::new();
            assert(ops_of(commands@) =~= liked_ops(*ev, None));
            Reaction { commands, notify: None }
        },
    }
}

/// Handles a comment, given the owner id resolved for the content (`None` when
/// the content was not found). The count command does not depend on the
/// resolution: it may be applied before the owner is looked up.
pub fn handle_feed_commented_event(ev: &FeedCommentedEvent, owner_id: Option<i64>) -> (r: Reaction)
    ensures
        ops_of(r.commands@) == commented_ops(*ev),
        r.notify == commented_intent(*ev, owner_id),
{
    let mut commands: Vec<StoreCommand> = Vec::new();
    commands.push(increment_one(Board::Comments, ev.feed_id));
    assert(ops_of(commands@) =~= commented_ops(*ev));
    let notify = match owner_id {
        Some(o) => if o != ev.user_id {
            Some(
                NotifyIntent {
                    recipient: o,
                    actor: ev.user_id,
                    feed_id: ev.feed_id,
                    kind: NotificationType::Comment,
                    comment: Some(ev.content.clone()),
                },
            )
        } else {
            None
        },
        None => None,
    };
    Reaction { commands, notify }
}

/// Handles a view: one more view for the content, and no notification.
pub fn handle_feed_viewed_event(ev: &FeedViewedEvent) -> (r: Reaction)
    ensures
        ops_of(r.commands@) == viewed_ops(*ev),
        r.notify is None,
{
    let mut commands: Vec<StoreCommand> = Vec::new();
    commands.push(increment_one(Board::FeedsViewed, ev.feed_id));
    assert(ops_of(commands@) =~= viewed_ops(*ev));
    Reaction { commands, notify: None }
}

/// The text a notification shows: the comment itself, or that the actor liked
/// the content.
pub open spec fn notification_text(intent: NotifyIntent, actor_name: Seq<char>) -> Seq<char> {
    match intent.comment {
        Some(c) => c@,
        None => actor_name + " liked your feed"@,
    }
}

/// Whether `n` is the unread notification that `intent` asks for, from the
/// actor named `actor_name`.
pub open spec fn fulfils(n: Notification, intent: NotifyIntent, actor_name: Seq<char>) -> bool {
    &&& n.user_id == intent.recipient
    &&& n.from_user_id == intent.actor
    &&& n.from_username@ == actor_name
    &&& n.feed_id == intent.feed_id
    &&& n.notification_type == intent.kind
    &&& n.content@ == notification_text(intent, actor_name)
    &&& !n.is_read
}

/// The notification for `intent`, with the given identifier and creation time.
pub fn build_notification(intent: &NotifyIntent, actor_name: String, id: String, created_at: i64) -> (r: Notification)
    ensures
        fulfils(r, *intent, actor_name@),
        r.id == Some(id),
        r.created_at == created_at,
{
    let content = match &intent.comment {
        Some(c) => c.clone(),
        None => {
            let mut t = actor_name.clone();
            t.append(" liked your feed");
            t
        },
    };
    Notification {
        id: Some(id),
        user_id: intent.recipient,
        from_user_id: intent.actor,
        from_username: actor_name,
        feed_id: intent.feed_id,
        notification_type: intent.kind,
        content,
        created_at,
        is_read: false,
    }
}

/// The notification for `intent`, identified afresh and stamped now; `None`
/// when the actor's name was not resolved, and nothing is created.
pub fn create_notification(intent: &NotifyIntent, actor_name: Option<String>) -> (r: Option<Notification>)
    ensures
        r is Some <==> actor_name is Some,
        r matches Some(n) ==> fulfils(n, *intent, actor_name->0@) && n.id is Some,
{
    match actor_name {
        Some(name) => Some(build_notification(intent, name, fresh_id(), unix_seconds_now())),
        None => None,
    }
}

impl Notification {
    /// Acknowledges the notification: it is read, and nothing else changes.
    pub fn mark_read(&mut self)
        ensures
            *final(self) == (Notification { is_read: true, ..*old(self) }),
    {
        self.is_read = true;
    }
}

/// The store after a run of likes, in the order given, all resolved to `owner`.
pub open spec fn run_likes(s: Scores, evs: Seq<FeedLikedEvent>, owner: Option<ContentOwner>) -> Scores
    decreases evs.len(),
{
    if evs.len() == 0 {
        s
    } else {
        apply_ops(run_likes(s, evs.drop_last(), owner), liked_ops(evs.last(), owner))
    }
}

/// N likes of one piece of content, in any order, add N to the content's like
/// count and N to its owner's likes received, when the owner is resolved.
pub proof fn lemma_likes_accumulate(
    s: Scores,
    evs: Seq<FeedLikedEvent>,
    feed_id: i64,
    owner: ContentOwner,
)
    requires
        forall|i: int| 0 <= i < evs.len() ==> (#[trigger] evs[i]).feed_id == feed_id,
    ensures
        score(run_likes(s, evs, Some(owner)), Board::FeedsLiked, decimal_text(feed_id as int))
            == score(s, Board::FeedsLiked, decimal_text(feed_id as int)) + evs.len(),
        score(run_likes(s, evs, Some(owner)), Board::UsersLiked, decimal_text(owner.user_id as int))
            == score(s, Board::UsersLiked, decimal_text(owner.user_id as int)) + evs.len(),
    decreases evs.len(),
{
    if evs.len() > 0 {
        let rest = evs.drop_last();
        assert forall|i: int| 0 <= i < rest.len() implies (#[trigger] rest[i]).feed_id == feed_id by {
            assert(evs[i].feed_id == feed_id);
        }
        lemma_likes_accumulate(s, rest, feed_id, owner);
        let before = run_likes(s, rest, Some(owner));
        let ops = liked_ops(evs.last(), Some(owner));
        assert(evs.last().feed_id == feed_id) by {
            assert(evs[evs.len() - 1].feed_id == feed_id);
        }
        assert(ops.drop_last().drop_last() =~= Seq::<StoreOp>::empty());
        assert(ops.drop_last() =~= seq![ops[0]]);
        let mid = apply_op(before, ops[0]);
        assert(apply_ops(before, ops.drop_last().drop_last()) == before);
        assert(apply_ops(before, ops.drop_last()) == mid);
        assert(apply_ops(before, ops) == apply_op(mid, ops[1]));
        assert(run_likes(s, evs, Some(owner)) == apply_ops(before, ops));
    }
}

/// An action on one's own content notifies no one, and still counts: a like
/// still adds to both like counts, and a comment to the comment count.
pub proof fn lemma_self_actions_silent(
    like: FeedLikedEvent,
    comment: FeedCommentedEvent,
    owner: ContentOwner,
)
    requires
        like.user_id == owner.user_id,
        comment.user_id == owner.user_id,
    ensures
        liked_intent(like, Some(owner)) is None,
        commented_intent(comment, Some(owner.user_id)) is None,
        liked_ops(like, Some(owner)) == seq![
            StoreOp::Increment(Board::UsersLiked, decimal_text(owner.user_id as int), 1),
            StoreOp::Increment(Board::FeedsLiked, decimal_text(like.feed_id as int), 1),
        ],
        commented_ops(comment) == seq![
            StoreOp::Increment(Board::Comments, decimal_text(comment.feed_id as int), 1),
        ],
{
}

/// The store operations of handling one content event, given what the
/// owner's resolution gave.
pub open spec fn event_ops(ev: FeedEvent, owner: Option<ContentOwner>) -> Seq<StoreOp> {
    match ev {
        FeedEvent::Liked(e) => liked_ops(e, owner),
        FeedEvent::Commented(e) => commented_ops(e),
        FeedEvent::Viewed(e) => viewed_ops(e),
        FeedEvent::Created(_) => seq![],
    }
}

proof fn lemma_event_ops_increments(ev: FeedEvent, owner: Option<ContentOwner>)
    ensures
        all_increments(event_ops(ev, owner)),
{
}

/// Handling two content events in either order leaves the ranked store the
/// same, whatever the kinds of the events and the owners they resolved to.
pub proof fn lemma_events_commute(
    s: Scores,
    first: FeedEvent,
    first_owner: Option<ContentOwner>,
    second: FeedEvent,
    second_owner: Option<ContentOwner>,
)
    ensures
        apply_ops(s, event_ops(first, first_owner) + event_ops(second, second_owner)) == apply_ops(
            s,
            event_ops(second, second_owner) + event_ops(first, first_owner),
        ),
{
    lemma_event_ops_increments(first, first_owner);
    lemma_event_ops_increments(second, second_owner);
    lemma_increment_runs_commute(s, event_ops(first, first_owner), event_ops(second, second_owner));
}

} // verus!
