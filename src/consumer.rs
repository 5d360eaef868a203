//! The decisions of a stream consumer: what to do with each message received,
//! or with a failure to receive one. The receive loop itself, and the work it
//! dispatches, run outside the library; the decision for a message depends on
//! that message alone, so a bad message never disturbs the ones after it.

use vstd::prelude::*;

use crate::events::{
    feed_event_decodes, feed_kind_of_tag, parse_feed_event, parse_user_event, same_text,
    user_event_decodes, EventDecodeError, FeedEvent, UserCreatedEvent,
};
use crate::json::{json_parses, json_text_member};

verus! {

/// How long to wait after a failed receive before receiving again.
pub const RECEIVE_BACKOFF_MILLIS: u64 = 1000;

/// The streams the pipeline consumes.
#[derive(Clone, Copy, Debug, PartialEq, Eq, Structural)]
pub enum Stream {
    /// Content events: created, liked, commented, viewed.
    Content,
    /// Identity events: user created.
    Identity,
}

pub open spec fn stream_topic(s: Stream) -> Seq<char> {
    match s {
        Stream::Content => "content-events"@,
        Stream::Identity => "identity-events"@,
    }
}

pub open spec fn stream_of_topic(topic: Seq<char>) -> Option<Stream> {
    if topic == "content-events"@ {
        Some(Stream::Content)
    } else if topic == "identity-events"@ {
        Some(Stream::Identity)
    } else {
        None
    }
}

impl Stream {
    /// The topic name of the stream.
    pub fn topic(&self) -> (r: &'static str)
        ensures
            r@ == stream_topic(*self),
    {
        match self {
            Stream::Content => "content-events",
            Stream::Identity => "identity-events",
        }
    }

    /// The stream a topic name names, if any.
    pub fn from_topic(topic: &str) -> (r: Option<Stream>)
        ensures
            r == stream_of_topic(topic@),
    {
        if same_text(topic, "content-events") {
            Some(Stream::Content)
        } else if same_text(topic, "identity-events") {
            Some(Stream::Identity)
        } else {
            None
        }
    }
}

/// What one receive call gave.
#[derive(Clone, Debug)]
pub enum Received {
    /// A message of `topic` under `key`; `payload` is its text, `None` when it
    /// was empty or not UTF-8.
    Message { topic: String, key: String, payload: Option<String> },
    /// The transport failed to receive.
    TransportError,
}

/// Why a message was dropped.
#[derive(Clone, Copy, Debug, PartialEq, Eq, Structural)]
pub enum DiscardReason {
    EmptyPayload,
    UnknownTopic,
    Undecodable(EventDecodeError),
}

/// What the receive loop does next.
#[derive(Clone, Debug)]
pub enum ConsumerAction {
    /// Hand the event to the realtime aggregator, as work of its own.
    HandleFeed(FeedEvent),
    /// Hand the identity event to its handler.
    HandleUser(UserCreatedEvent),
    /// Drop the message, log why, and receive the next one.
    Discard(DiscardReason),
    /// Wait this long, then receive again.
    Backoff { millis: u64 },
}

/// Whether `a` is what the loop does with `received`.
pub open spec fn action_fits(received: Received, a: ConsumerAction) -> bool {
    match received {
        Received::TransportError => a == ConsumerAction::Backoff { millis: RECEIVE_BACKOFF_MILLIS },
        Received::Message { topic, key, payload } => match stream_of_topic(topic@) {
            None => a == ConsumerAction::Discard(DiscardReason::UnknownTopic),
            Some(stream) => match payload {
                None => a == ConsumerAction::Discard(DiscardReason::EmptyPayload),
                Some(p) => match stream {
                    Stream::Content => match a {
                        ConsumerAction::HandleFeed(e) => feed_event_decodes(p@, Ok(e)),
                        ConsumerAction::Discard(DiscardReason::Undecodable(x)) => feed_event_decodes(
                            p@,
                            Err(x),
                        ),
                        _ => false,
                    },
                    Stream::Identity => match a {
                        ConsumerAction::HandleUser(e) => user_event_decodes(p@, Ok(e)),
                        ConsumerAction::Discard(DiscardReason::Undecodable(x)) => user_event_decodes(
                            p@,
                            Err(x),
                        ),
                        _ => false,
                    },
                },
            },
        },
    }
}

/// What the loop has done so far, for observability.
#[derive(Clone, Copy, Debug, PartialEq, Eq, Structural)]
pub struct ConsumerState {
    pub dispatched: u64,
    pub discarded: u64,
    pub transport_errors: u64,
}

/// One more, unless the counter is full.
pub open spec fn bumped(x: u64) -> u64 {
    if x < u64::MAX {
        (x + 1) as u64
    } else {
        x
    }
}

fn bump(x: u64) -> (r: u64)
    ensures
        r == bumped(x),
{
    if x < u64::MAX {
        x + 1
    } else {
        x
    }
}

/// The counters after the loop took action `a`.
pub open spec fn counted(s: ConsumerState, a: ConsumerAction) -> ConsumerState {
    match a {
        ConsumerAction::HandleFeed(_) | ConsumerAction::HandleUser(_) => ConsumerState {
            dispatched: bumped(s.dispatched),
            ..s
        },
        ConsumerAction::Discard(_) => ConsumerState { discarded: bumped(s.discarded), ..s },
        ConsumerAction::Backoff { .. } => ConsumerState {
            transport_errors: bumped(s.transport_errors),
            ..s
        },
    }
}

fn decide(received: &Received) -> (a: ConsumerAction)
    ensures
        action_fits(*received, a),
{
    match received {
        Received::TransportError => ConsumerAction::Backoff { millis: RECEIVE_BACKOFF_MILLIS },
        Received::Message { topic, key, payload } => match Stream::from_topic(topic.as_str()) {
            None => ConsumerAction::Discard(DiscardReason::UnknownTopic),
            Some(stream) => match payload {
                None => ConsumerAction::Discard(DiscardReason::EmptyPayload),
                Some(p) => match stream {
                    Stream::Content => match parse_feed_event(p.as_str()) {
                        Ok(e) => ConsumerAction::HandleFeed(e),
                        Err(x) => ConsumerAction::Discard(DiscardReason::Undecodable(x)),
                    },
                    Stream::Identity => match parse_user_event(p.as_str()) {
                        Ok(e) => ConsumerAction::HandleUser(e),
                        Err(x) => ConsumerAction::Discard(DiscardReason::Undecodable(x)),
                    },
                },
            },
        },
    }
}

impl ConsumerState {
    /// A loop that has done nothing yet.
    pub fn new() -> (r: ConsumerState)
        ensures
            r == (ConsumerState { dispatched: 0, discarded: 0, transport_errors: 0 }),
    {
        ConsumerState { dispatched: 0, discarded: 0, transport_errors: 0 }
    }

    /// Decides what to do with what one receive call gave, and counts it.
    pub fn step(&mut self, received: &Received) -> (a: ConsumerAction)
        ensures
            action_fits(*received, a),
            *final(self) == counted(*old(self), a),
    {
        let a = decide(received);
        match &a {
            ConsumerAction::HandleFeed(_) | ConsumerAction::HandleUser(_) => {
                self.dispatched = bump(self.dispatched);
            },
            ConsumerAction::Discard(_) => {
                self.discarded = bump(self.discarded);
            },
            ConsumerAction::Backoff { .. } => {
                self.transport_errors = bump(self.transport_errors);
            },
        }
        a
    }
}

/// A content message whose `event_type` names no known kind is discarded and
/// only the discard counter moves; the loop goes on, and since `action_fits`
/// mentions no state, what it does with any later message is fixed by that
/// message alone.
pub proof fn lemma_unknown_kind_isolated(
    s: ConsumerState,
    key: String,
    payload: String,
    topic: String,
    a1: ConsumerAction,
)
    requires
        topic@ == "content-events"@,
        json_parses(payload@),
        json_text_member(payload@, "event_type"@) matches Some(t) && feed_kind_of_tag(t) is None,
        action_fits(Received::Message { topic, key, payload: Some(payload) }, a1),
    ensures
        a1 == ConsumerAction::Discard(DiscardReason::Undecodable(EventDecodeError::UnknownEventType)),
        counted(s, a1) == (ConsumerState { discarded: bumped(s.discarded), ..s }),
{
}

} // verus!
