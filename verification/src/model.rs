//! The entity rows of the domain and their mathematical views.
//!
//! Every identifier is a sortable unique id: ids are allocated in strictly
//! increasing order by the store, so comparing two ids orders the rows by
//! creation time. Timestamps are seconds since the Unix epoch.

use vstd::prelude::*;

verus! {

/// A sortable unique identifier.
pub type Id = u128;

/// A posted message. Immutable after creation except timestamp bookkeeping.
pub struct Message {
    pub message_id: Id,
    pub user_id: Id,
    pub text: String,
    pub code: String,
    pub created_at: i64,
    pub updated_at: i64,
}

/// The mathematical value of a [`Message`].
#[verifier::ext_equal]
pub struct MessageView {
    pub message_id: Id,
    pub user_id: Id,
    pub text: Seq<char>,
    pub code: Seq<char>,
    pub created_at: i64,
    pub updated_at: i64,
}

impl View for Message {
    type V = MessageView;

    open spec fn view(&self) -> MessageView {
        MessageView {
            message_id: self.message_id,
            user_id: self.user_id,
            text: self.text@,
            code: self.code@,
            created_at: self.created_at,
            updated_at: self.updated_at,
        }
    }
}

impl Clone for Message {
    fn clone(&self) -> (r: Self)
        ensures
            r@ == self@,
    {
        Message {
            message_id: self.message_id,
            user_id: self.user_id,
            text: self.text.clone(),
            code: self.code.clone(),
            created_at: self.created_at,
            updated_at: self.updated_at,
        }
    }
}

/// A user-owned container that messages can be filed under.
pub struct Topic {
    pub topic_id: Id,
    pub user_id: Id,
    pub title: String,
    pub created_at: i64,
    pub updated_at: i64,
}

/// The mathematical value of a [`Topic`].
#[verifier::ext_equal]
pub struct TopicView {
    pub topic_id: Id,
    pub user_id: Id,
    pub title: Seq<char>,
    pub created_at: i64,
    pub updated_at: i64,
}

impl View for Topic {
    type V = TopicView;

    open spec fn view(&self) -> TopicView {
        TopicView {
            topic_id: self.topic_id,
            user_id: self.user_id,
            title: self.title@,
            created_at: self.created_at,
            updated_at: self.updated_at,
        }
    }
}

impl Clone for Topic {
    fn clone(&self) -> (r: Self)
        ensures
            r@ == self@,
    {
        Topic {
            topic_id: self.topic_id,
            user_id: self.user_id,
            title: self.title.clone(),
            created_at: self.created_at,
            updated_at: self.updated_at,
        }
    }
}

/// The flattened reply-thread anchored at one root message.
///
/// `message_id` is the root; at most one stream exists per root.
/// `messages_count` is a maintained counter, not a live row count: it starts
/// at 2 (root plus first reply) and is incremented by a post-commit step that
/// can be lost, so it may drift below the true membership count.
pub struct Stream {
    pub stream_id: Id,
    pub text: String,
    pub message_id: Id,
    pub messages_count: i64,
    pub created_at: i64,
    pub updated_at: i64,
}

/// The mathematical value of a [`Stream`].
#[verifier::ext_equal]
pub struct StreamView {
    pub stream_id: Id,
    pub text: Seq<char>,
    pub message_id: Id,
    pub messages_count: i64,
    pub created_at: i64,
    pub updated_at: i64,
}

impl View for Stream {
    type V = StreamView;

    open spec fn view(&self) -> StreamView {
        StreamView {
            stream_id: self.stream_id,
            text: self.text@,
            message_id: self.message_id,
            messages_count: self.messages_count,
            created_at: self.created_at,
            updated_at: self.updated_at,
        }
    }
}

impl Clone for Stream {
    fn clone(&self) -> (r: Self)
        ensures
            r@ == self@,
    {
        Stream {
            stream_id: self.stream_id,
            text: self.text.clone(),
            message_id: self.message_id,
            messages_count: self.messages_count,
            created_at: self.created_at,
            updated_at: self.updated_at,
        }
    }
}

/// How often a subscriber wants deliveries.
#[derive(Clone, Copy, Debug, PartialEq, Eq, Structural)]
pub enum Rate {
    Q,
    Qd,
    Qw,
}

/// When a subscriber wants deliveries.
#[derive(Clone, Copy, Debug, PartialEq, Eq, Structural)]
pub enum Timing {
    Instant,
    Weekdays,
    Weekends,
}

/// A user's subscription to a topic, with delivery preferences.
///
/// At most one row exists per (`topic_id`, `user_id`) pair.
#[derive(Clone, Copy, Debug, PartialEq, Eq, Structural)]
pub struct TopicUser {
    pub topic_user_id: Id,
    pub user_id: Id,
    pub topic_id: Id,
    pub rate: Rate,
    pub timing: Timing,
    pub created_at: i64,
    pub updated_at: i64,
}

/// Links a message to a stream it belongs to.
///
/// At most one row exists per (`message_id`, `stream_id`) pair.
#[derive(Clone, Copy, Debug, PartialEq, Eq, Structural)]
pub struct MessageStream {
    pub message_stream_id: Id,
    pub message_id: Id,
    pub stream_id: Id,
    pub created_at: i64,
    pub updated_at: i64,
}

/// Files a message under a topic, fixed at message creation time.
///
/// At most one row exists per (`message_id`, `topic_id`) pair.
#[derive(Clone, Copy, Debug, PartialEq, Eq, Structural)]
pub struct MessageTopic {
    pub message_topic_id: Id,
    pub message_id: Id,
    pub topic_id: Id,
    pub created_at: i64,
    pub updated_at: i64,
}

/// Records a user's membership in a stream. Membership only grows.
///
/// At most one row exists per (`stream_id`, `user_id`) pair.
#[derive(Clone, Copy, Debug, PartialEq, Eq, Structural)]
pub struct StreamUser {
    pub stream_user_id: Id,
    pub user_id: Id,
    pub stream_id: Id,
    pub created_at: i64,
    pub updated_at: i64,
}

/// The views of a sequence of message rows, in the same order.
pub open spec fn message_views(s: Seq<Message>) -> Seq<MessageView> {
    s.map_values(|m: Message| m@)
}

/// The views of a sequence of topic rows, in the same order.
pub open spec fn topic_views(s: Seq<Topic>) -> Seq<TopicView> {
    s.map_values(|t: Topic| t@)
}

/// The views of a sequence of stream rows, in the same order.
pub open spec fn stream_views(s: Seq<Stream>) -> Seq<StreamView> {
    s.map_values(|t: Stream| t@)
}

} // verus!
