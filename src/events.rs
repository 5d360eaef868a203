//! Event envelopes: the domain events carried on the content and identity
//! streams, and their decoding from a transport payload.
//!
//! Decoding is typed and fails closed: a payload whose `event_type` names no
//! known kind is an error, never a guess.

use vstd::prelude::*;

use crate::stamp::current_timestamp;
use crate::json::{
    json_int_member, json_parses, json_text_member, json_uint_member, member_int, member_text,
    member_uint, parses,
};

verus! {

/// The kinds of event on the content stream.
#[derive(Clone, Copy, Debug, PartialEq, Eq, Structural)]
pub enum FeedEventType {
    Created,
    Liked,
    Commented,
    Viewed,
}

/// The kinds of event on the identity stream.
#[derive(Clone, Copy, Debug, PartialEq, Eq, Structural)]
pub enum UserEventType {
    UserCreated,
}

/// Content was created.
#[derive(Clone, Debug)]
pub struct FeedCreatedEvent {
    pub event_type: FeedEventType,
    pub feed_id: u64,
    pub user_id: i64,
    pub content: String,
    pub timestamp: String,
}

/// Content was liked by `user_id`.
#[derive(Clone, Debug)]
pub struct FeedLikedEvent {
    pub event_type: FeedEventType,
    pub feed_id: i64,
    pub user_id: i64,
    pub timestamp: String,
}

/// Content was commented on by `user_id`.
#[derive(Clone, Debug)]
pub struct FeedCommentedEvent {
    pub event_type: FeedEventType,
    pub feed_id: i64,
    pub user_id: i64,
    pub comment_id: String,
    pub content: String,
    pub timestamp: String,
}

/// Content was viewed; `user_id` is 0 for an anonymous viewer.
#[derive(Clone, Debug)]
pub struct FeedViewedEvent {
    pub event_type: FeedEventType,
    pub feed_id: i64,
    pub user_id: i64,
    pub timestamp: String,
}

/// An identity was created.
#[derive(Clone, Debug)]
pub struct UserCreatedEvent {
    pub event_type: UserEventType,
    pub user_id: u64,
    pub email: String,
    pub username: String,
    pub timestamp: String,
}

/// An event of the content stream, by kind.
#[derive(Clone, Debug)]
pub enum FeedEvent {
    Created(FeedCreatedEvent),
    Liked(FeedLikedEvent),
    Commented(FeedCommentedEvent),
    Viewed(FeedViewedEvent),
}

/// Why a payload was not decoded.
#[derive(Clone, Copy, Debug, PartialEq, Eq, Structural)]
pub enum EventDecodeError {
    /// The payload is not a JSON document.
    Malformed,
    /// The payload has no textual `event_type`.
    MissingEventType,
    /// The `event_type` names no kind of this stream.
    UnknownEventType,
    /// A field that the kind needs is absent or of the wrong type.
    MissingField,
}

impl FeedCreatedEvent {
    /// The event for content `feed_id` created by `user_id`, stamped now.
    pub fn new(feed_id: u64, user_id: i64, content: String) -> (r: Self)
        ensures
            r.event_type == FeedEventType::Created,
            r.feed_id == feed_id,
            r.user_id == user_id,
            r.content == content,
    {
        FeedCreatedEvent {
            event_type: FeedEventType::Created,
            feed_id,
            user_id,
            content,
            timestamp: current_timestamp(),
        }
    }
}

impl FeedLikedEvent {
    /// The event for a like of `feed_id` by `user_id`, stamped now.
    pub fn new(feed_id: i64, user_id: i64) -> (r: Self)
        ensures
            r.event_type == FeedEventType::Liked,
            r.feed_id == feed_id,
            r.user_id == user_id,
    {
        FeedLikedEvent {
            event_type: FeedEventType::Liked,
            feed_id,
            user_id,
            timestamp: current_timestamp(),
        }
    }
}

impl FeedCommentedEvent {
    /// The event for comment `comment_id` on `feed_id` by `user_id`, stamped now.
    pub fn new(feed_id: i64, user_id: i64, comment_id: String, content: String) -> (r: Self)
        ensures
            r.event_type == FeedEventType::Commented,
            r.feed_id == feed_id,
            r.user_id == user_id,
            r.comment_id == comment_id,
            r.content == content,
    {
        FeedCommentedEvent {
            event_type: FeedEventType::Commented,
            feed_id,
            user_id,
            comment_id,
            content,
            timestamp: current_timestamp(),
        }
    }
}

impl FeedViewedEvent {
    /// The event for a view of `feed_id` by `user_id` (0 when anonymous), stamped now.
    pub fn new(feed_id: i64, user_id: i64) -> (r: Self)
        ensures
            r.event_type == FeedEventType::Viewed,
            r.feed_id == feed_id,
            r.user_id == user_id,
    {
        FeedViewedEvent {
            event_type: FeedEventType::Viewed,
            feed_id,
            user_id,
            timestamp: current_timestamp(),
        }
    }
}

impl UserCreatedEvent {
    /// The event for identity `user_id` created now.
    pub fn new(user_id: u64, email: String, username: String) -> (r: Self)
        ensures
            r.event_type == UserEventType::UserCreated,
            r.user_id == user_id,
            r.email == email,
            r.username == username,
    {
        UserCreatedEvent {
            event_type: UserEventType::UserCreated,
            user_id,
            email,
            username,
            timestamp: current_timestamp(),
        }
    }
}

/// The kind that a discriminant names on the content stream.
pub open spec fn feed_kind_of_tag(tag: Seq<char>) -> Option<FeedEventType> {
    if tag == "created"@ {
        Some(FeedEventType::Created)
    } else if tag == "liked"@ {
        Some(FeedEventType::Liked)
    } else if tag == "commented"@ {
        Some(FeedEventType::Commented)
    } else if tag == "viewed"@ {
        Some(FeedEventType::Viewed)
    } else {
        None
    }
}

pub open spec fn feed_tag(k: FeedEventType) -> Seq<char> {
    match k {
        FeedEventType::Created => "created"@,
        FeedEventType::Liked => "liked"@,
        FeedEventType::Commented => "commented"@,
        FeedEventType::Viewed => "viewed"@,
    }
}

/// Whether two texts are the same.
pub fn same_text(a: &str, b: &str) -> (r: bool)
    ensures
        r == (a@ == b@),
{
    let n = a.unicode_len();
    if n != b.unicode_len() {
        return false;
    }
    let mut i: usize = 0;
    while i < n
        invariant
            i <= n,
            n == a@.len(),
            n == b@.len(),
            a@.subrange(0, i as int) == b@.subrange(0, i as int),
        decreases n - i,
    {
        if a.get_char(i) != b.get_char(i) {
            return false;
        }
        proof {
            assert(a@.subrange(0, i + 1) =~= a@.subrange(0, i as int).push(a@[i as int]));
            assert(b@.subrange(0, i + 1) =~= b@.subrange(0, i as int).push(b@[i as int]));
        }
        i = i + 1;
    }
    assert(a@ =~= a@.subrange(0, n as int));
    assert(b@ =~= b@.subrange(0, n as int));
    true
}

impl FeedEventType {
    /// The discriminant that names this kind in a payload.
    pub fn tag(&self) -> (r: &'static str)
        ensures
            r@ == feed_tag(*self),
    {
        match self {
            FeedEventType::Created => "created",
            FeedEventType::Liked => "liked",
            FeedEventType::Commented => "commented",
            FeedEventType::Viewed => "viewed",
        }
    }

    /// The kind that `tag` names, if any.
    pub fn from_tag(tag: &str) -> (r: Option<FeedEventType>)
        ensures
            r == feed_kind_of_tag(tag@),
    {
        if same_text(tag, "created") {
            Some(FeedEventType::Created)
        } else if same_text(tag, "liked") {
            Some(FeedEventType::Liked)
        } else if same_text(tag, "commented") {
            Some(FeedEventType::Commented)
        } else if same_text(tag, "viewed") {
            Some(FeedEventType::Viewed)
        } else {
            None
        }
    }
}

impl FeedEvent {
    pub open spec fn kind(&self) -> FeedEventType {
        match self {
            FeedEvent::Created(e) => e.event_type,
            FeedEvent::Liked(e) => e.event_type,
            FeedEvent::Commented(e) => e.event_type,
            FeedEvent::Viewed(e) => e.event_type,
        }
    }

    /// The kind of this event.
    pub fn event_type(&self) -> (r: FeedEventType)
        ensures
            r == self.kind(),
    {
        match self {
            FeedEvent::Created(e) => e.event_type,
            FeedEvent::Liked(e) => e.event_type,
            FeedEvent::Commented(e) => e.event_type,
            FeedEvent::Viewed(e) => e.event_type,
        }
    }
}

/// The text member `key` of the payload, or the empty text when it has none.
pub open spec fn text_or_empty(text: Seq<char>, key: Seq<char>) -> Seq<char> {
    match json_text_member(text, key) {
        Some(t) => t,
        None => Seq::empty(),
    }
}

fn member_text_or_empty(text: &str, key: &str) -> (r: String)
    ensures
        r@ == text_or_empty(text@, key@),
{
    match member_text(text, key) {
        Some(t) => t,
        None => String::new(),
    }
}

/// What decoding `text` as a content-stream event gives.
///
/// Each kind needs the fields that its handling reads: the content id and the
/// actor for every kind, and the comment text for a comment. A missing
/// timestamp or comment id is read as the empty text.
pub open spec fn feed_event_decodes(text: Seq<char>, r: Result<FeedEvent, EventDecodeError>) -> bool {
    if !json_parses(text) {
        r == Err::<FeedEvent, EventDecodeError>(EventDecodeError::Malformed)
    } else {
        match json_text_member(text, "event_type"@) {
            None => r == Err::<FeedEvent, EventDecodeError>(EventDecodeError::MissingEventType),
            Some(tag) => match feed_kind_of_tag(tag) {
                None => r == Err::<FeedEvent, EventDecodeError>(EventDecodeError::UnknownEventType),
                Some(FeedEventType::Created) => match (
                    json_uint_member(text, "feed_id"@),
                    json_int_member(text, "user_id"@),
                ) {
                    (Some(f), Some(u)) => r matches Ok(FeedEvent::Created(e)) && e.event_type
                        == FeedEventType::Created && e.feed_id == f && e.user_id == u
                        && e.content@ == text_or_empty(text, "content"@) && e.timestamp@
                        == text_or_empty(text, "timestamp"@),
                    _ => r == Err::<FeedEvent, EventDecodeError>(EventDecodeError::MissingField),
                },
                Some(FeedEventType::Liked) => match (
                    json_int_member(text, "feed_id"@),
                    json_int_member(text, "user_id"@),
                ) {
                    (Some(f), Some(u)) => r matches Ok(FeedEvent::Liked(e)) && e.event_type
                        == FeedEventType::Liked && e.feed_id == f && e.user_id == u && e.timestamp@
                        == text_or_empty(text, "timestamp"@),
                    _ => r == Err::<FeedEvent, EventDecodeError>(EventDecodeError::MissingField),
                },
                Some(FeedEventType::Commented) => match (
                    json_int_member(text, "feed_id"@),
                    json_int_member(text, "user_id"@),
                    json_text_member(text, "content"@),
                ) {
                    (Some(f), Some(u), Some(c)) => r matches Ok(FeedEvent::Commented(e))
                        && e.event_type == FeedEventType::Commented && e.feed_id == f && e.user_id
                        == u && e.content@ == c && e.comment_id@ == text_or_empty(
                        text,
                        "comment_id"@,
                    ) && e.timestamp@ == text_or_empty(text, "timestamp"@),
                    _ => r == Err::<FeedEvent, EventDecodeError>(EventDecodeError::MissingField),
                },
                Some(FeedEventType::Viewed) => match (
                    json_int_member(text, "feed_id"@),
                    json_int_member(text, "user_id"@),
                ) {
                    (Some(f), Some(u)) => r matches Ok(FeedEvent::Viewed(e)) && e.event_type
                        == FeedEventType::Viewed && e.feed_id == f && e.user_id == u && e.timestamp@
                        == text_or_empty(text, "timestamp"@),
                    _ => r == Err::<FeedEvent, EventDecodeError>(EventDecodeError::MissingField),
                },
            },
        }
    }
}

/// Decodes a payload of the content stream into an event of the kind that its
/// `event_type` names.
pub fn parse_feed_event(payload: &str) -> (r: Result<FeedEvent, EventDecodeError>)
    ensures
        feed_event_decodes(payload@, r),
{
    if !parses(payload) {
        return Err(EventDecodeError::Malformed);
    }
    let tag = match member_text(payload, "event_type") {
        Some(t) => t,
        None => return Err(EventDecodeError::MissingEventType),
    };
    let kind = match FeedEventType::from_tag(tag.as_str()) {
        Some(k) => k,
        None => return Err(EventDecodeError::UnknownEventType),
    };
    match kind {
        FeedEventType::Created => {
            match (member_uint(payload, "feed_id"), member_int(payload, "user_id")) {
                (Some(f), Some(u)) => Ok(
                    FeedEvent::Created(
                        FeedCreatedEvent {
                            event_type: FeedEventType::Created,
                            feed_id: f,
                            user_id: u,
                            content: member_text_or_empty(payload, "content"),
                            timestamp: member_text_or_empty(payload, "timestamp"),
                        },
                    ),
                ),
                _ => Err(EventDecodeError::MissingField),
            }
        },
        FeedEventType::Liked => {
            match (member_int(payload, "feed_id"), member_int(payload, "user_id")) {
                (Some(f), Some(u)) => Ok(
                    FeedEvent::Liked(
                        FeedLikedEvent {
                            event_type: FeedEventType::Liked,
                            feed_id: f,
                            user_id: u,
                            timestamp: member_text_or_empty(payload, "timestamp"),
                        },
                    ),
                ),
                _ => Err(EventDecodeError::MissingField),
            }
        },
        FeedEventType::Commented => {
            match (
                member_int(payload, "feed_id"),
                member_int(payload, "user_id"),
                member_text(payload, "content"),
            ) {
                (Some(f), Some(u), Some(c)) => Ok(
                    FeedEvent::Commented(
                        FeedCommentedEvent {
                            event_type: FeedEventType::Commented,
                            feed_id: f,
                            user_id: u,
                            comment_id: member_text_or_empty(payload, "comment_id"),
                            content: c,
                            timestamp: member_text_or_empty(payload, "timestamp"),
                        },
                    ),
                ),
                _ => Err(EventDecodeError::MissingField),
            }
        },
        FeedEventType::Viewed => {
            match (member_int(payload, "feed_id"), member_int(payload, "user_id")) {
                (Some(f), Some(u)) => Ok(
                    FeedEvent::Viewed(
                        FeedViewedEvent {
                            event_type: FeedEventType::Viewed,
                            feed_id: f,
                            user_id: u,
                            timestamp: member_text_or_empty(payload, "timestamp"),
                        },
                    ),
                ),
                _ => Err(EventDecodeError::MissingField),
            }
        },
    }
}

/// What decoding `text` as an identity-stream event gives: an identity
/// creation needs its user id; absent text fields are read as empty.
pub open spec fn user_event_decodes(text: Seq<char>, r: Result<UserCreatedEvent, EventDecodeError>) -> bool {
    if !json_parses(text) {
        r == Err::<UserCreatedEvent, EventDecodeError>(EventDecodeError::Malformed)
    } else {
        match json_text_member(text, "event_type"@) {
            None => r == Err::<UserCreatedEvent, EventDecodeError>(
                EventDecodeError::MissingEventType,
            ),
            Some(tag) => if tag != "user_created"@ {
                r == Err::<UserCreatedEvent, EventDecodeError>(EventDecodeError::UnknownEventType)
            } else {
                match json_uint_member(text, "user_id"@) {
                    Some(u) => r matches Ok(e) && e.event_type == UserEventType::UserCreated
                        && e.user_id == u && e.email@ == text_or_empty(text, "email"@)
                        && e.username@ == text_or_empty(text, "username"@) && e.timestamp@
                        == text_or_empty(text, "timestamp"@),
                    None => r == Err::<UserCreatedEvent, EventDecodeError>(
                        EventDecodeError::MissingField,
                    ),
                }
            },
        }
    }
}

/// Decodes a payload of the identity stream.
pub fn parse_user_event(payload: &str) -> (r: Result<UserCreatedEvent, EventDecodeError>)
    ensures
        user_event_decodes(payload@, r),
{
    if !parses(payload) {
        return Err(EventDecodeError::Malformed);
    }
    let tag = match member_text(payload, "event_type") {
        Some(t) => t,
        None => return Err(EventDecodeError::MissingEventType),
    };
    if !same_text(tag.as_str(), "user_created") {
        return Err(EventDecodeError::UnknownEventType);
    }
    match member_uint(payload, "user_id") {
        Some(u) => Ok(
            UserCreatedEvent {
                event_type: UserEventType::UserCreated,
                user_id: u,
                email: member_text_or_empty(payload, "email"),
                username: member_text_or_empty(payload, "username"),
                timestamp: member_text_or_empty(payload, "timestamp"),
            },
        ),
        None => Err(EventDecodeError::MissingField),
    }
}

} // verus!
