//! The in-memory model of the relational store.
//!
//! The store holds one vector per table. Rows are only ever appended (and,
//! for subscriptions, updated or removed in place), and every primary key is
//! drawn from a single strictly increasing allocator, so each table stays
//! sorted by primary key — the model of the database's time-ordered unique
//! ids. The well-formedness predicate [`StoreView::wf`] carries the unique
//! constraints the relational schema enforces: one stream per root message,
//! one subscription per (topic, user), one link row per (message, stream),
//! per (message, topic) and per (stream, user).
//!
//! Concurrency control of the database is modelled by the store being the
//! single serialization point: operations apply one after the other, and the
//! upsert primitives resolve duplicate creation races idempotently, exactly
//! as the unique constraints do.

use vstd::prelude::*;

use crate::model::{
    Id, Message, MessageStream, MessageTopic, MessageView, Stream, StreamUser, StreamView, Topic,
    TopicUser, TopicView, message_views, stream_views, topic_views,
};

verus! {

/// The mathematical value of the whole store.
#[verifier::ext_equal]
pub struct StoreView {
    /// The next primary key to allocate; every id in the store is below it.
    pub next_id: Id,
    pub messages: Seq<MessageView>,
    pub topics: Seq<TopicView>,
    pub streams: Seq<StreamView>,
    pub topic_users: Seq<TopicUser>,
    pub message_streams: Seq<MessageStream>,
    pub message_topics: Seq<MessageTopic>,
    pub stream_users: Seq<StreamUser>,
}

/// The store a fresh deployment starts from: every table empty.
pub open spec fn empty_store() -> StoreView {
    StoreView {
        next_id: 1,
        messages: Seq::empty(),
        topics: Seq::empty(),
        streams: Seq::empty(),
        topic_users: Seq::empty(),
        message_streams: Seq::empty(),
        message_topics: Seq::empty(),
        stream_users: Seq::empty(),
    }
}

// ---------------------------------------------------------------------------
// Queries over table contents.
// ---------------------------------------------------------------------------

/// Some message row carries this id.
pub open spec fn has_message(ms: Seq<MessageView>, message_id: Id) -> bool {
    exists|i: int| 0 <= i < ms.len() && ms[i].message_id == message_id
}

/// The message row with this id; meaningful when `has_message` holds and the
/// table keys are unique.
pub open spec fn message_with_id(ms: Seq<MessageView>, message_id: Id) -> MessageView {
    ms[choose|i: int| 0 <= i < ms.len() && ms[i].message_id == message_id]
}

/// Some topic row carries this id.
pub open spec fn has_topic(ts: Seq<TopicView>, topic_id: Id) -> bool {
    exists|i: int| 0 <= i < ts.len() && ts[i].topic_id == topic_id
}

/// The topic row with this id; meaningful when `has_topic` holds.
pub open spec fn topic_with_id(ts: Seq<TopicView>, topic_id: Id) -> TopicView {
    ts[choose|i: int| 0 <= i < ts.len() && ts[i].topic_id == topic_id]
}

/// Some stream row is rooted at this message.
pub open spec fn has_stream_for_root(ss: Seq<StreamView>, root_message_id: Id) -> bool {
    exists|i: int| 0 <= i < ss.len() && ss[i].message_id == root_message_id
}

/// The stream rooted at this message; meaningful when `has_stream_for_root`
/// holds, since roots are unique among streams.
pub open spec fn stream_for_root(ss: Seq<StreamView>, root_message_id: Id) -> StreamView {
    ss[choose|i: int| 0 <= i < ss.len() && ss[i].message_id == root_message_id]
}

/// Some subscription row carries this id.
pub open spec fn has_topic_user(tus: Seq<TopicUser>, topic_user_id: Id) -> bool {
    exists|i: int| 0 <= i < tus.len() && tus[i].topic_user_id == topic_user_id
}

/// The subscription row with this id; meaningful when `has_topic_user` holds.
pub open spec fn topic_user_with_id(tus: Seq<TopicUser>, topic_user_id: Id) -> TopicUser {
    tus[choose|i: int| 0 <= i < tus.len() && tus[i].topic_user_id == topic_user_id]
}

/// Some subscription row joins this user to this topic.
pub open spec fn has_subscription(tus: Seq<TopicUser>, topic_id: Id, user_id: Id) -> bool {
    exists|i: int| 0 <= i < tus.len() && tus[i].topic_id == topic_id && tus[i].user_id == user_id
}

/// The subscription row of this (topic, user) pair; meaningful when
/// `has_subscription` holds, since the pair is unique.
pub open spec fn subscription_for(tus: Seq<TopicUser>, topic_id: Id, user_id: Id) -> TopicUser {
    tus[choose|i: int|
        0 <= i < tus.len() && tus[i].topic_id == topic_id && tus[i].user_id == user_id]
}

/// Some link row joins this message to this stream.
pub open spec fn has_message_stream(
    mss: Seq<MessageStream>,
    message_id: Id,
    stream_id: Id,
) -> bool {
    exists|i: int|
        0 <= i < mss.len() && mss[i].message_id == message_id && mss[i].stream_id == stream_id
}

/// Some membership row joins this user to this stream.
pub open spec fn has_stream_user(sus: Seq<StreamUser>, stream_id: Id, user_id: Id) -> bool {
    exists|i: int|
        0 <= i < sus.len() && sus[i].stream_id == stream_id && sus[i].user_id == user_id
}

/// Some filing row puts this message under this topic.
pub open spec fn has_message_topic(
    mts: Seq<MessageTopic>,
    message_id: Id,
    topic_id: Id,
) -> bool {
    exists|i: int|
        0 <= i < mts.len() && mts[i].message_id == message_id && mts[i].topic_id == topic_id
}

/// Holds of a topic row owned by `user_id` whose id is listed in `topic_ids`.
pub open spec fn owned_in_pred(topic_ids: Seq<Id>, user_id: Id) -> spec_fn(TopicView) -> bool {
    |t: TopicView| t.user_id == user_id && topic_ids.contains(t.topic_id)
}

/// The topic rows among `topic_ids` that are owned by `user_id`, in table
/// order. Because topic ids are unique keys, the result's length equals
/// `topic_ids.len()` exactly when the ids are distinct and all owned.
pub open spec fn owned_topics_among(
    ts: Seq<TopicView>,
    topic_ids: Seq<Id>,
    user_id: Id,
) -> Seq<TopicView> {
    ts.filter(owned_in_pred(topic_ids, user_id))
}

/// Holds of a topic row whose id is listed.
pub open spec fn topic_in_ids_pred(topic_ids: Seq<Id>) -> spec_fn(TopicView) -> bool {
    |t: TopicView| topic_ids.contains(t.topic_id)
}

/// The topic rows whose id is listed, in table order.
pub open spec fn topics_by_ids(ts: Seq<TopicView>, topic_ids: Seq<Id>) -> Seq<TopicView> {
    ts.filter(topic_in_ids_pred(topic_ids))
}

/// Holds of a topic row owned by one of the listed users.
pub open spec fn topic_of_users_pred(user_ids: Seq<Id>) -> spec_fn(TopicView) -> bool {
    |t: TopicView| user_ids.contains(t.user_id)
}

/// The topic rows owned by one of the listed users, in table order.
pub open spec fn topics_of_users(ts: Seq<TopicView>, user_ids: Seq<Id>) -> Seq<TopicView> {
    ts.filter(topic_of_users_pred(user_ids))
}

/// Holds of a topic row this user subscribes to.
pub open spec fn subscribed_pred(tus: Seq<TopicUser>, user_id: Id) -> spec_fn(TopicView) -> bool {
    |t: TopicView| has_subscription(tus, t.topic_id, user_id)
}

/// The topic rows this user subscribes to, in table order.
pub open spec fn subscribed_topics(
    ts: Seq<TopicView>,
    tus: Seq<TopicUser>,
    user_id: Id,
) -> Seq<TopicView> {
    ts.filter(subscribed_pred(tus, user_id))
}

/// Holds of a message row filed under one of the listed topics.
pub open spec fn msg_in_topics_pred(mts: Seq<MessageTopic>, topic_ids: Seq<Id>) -> spec_fn(
    MessageView,
) -> bool {
    |m: MessageView|
        exists|k: int|
            0 <= k < mts.len() && mts[k].message_id == m.message_id && topic_ids.contains(
                mts[k].topic_id,
            )
}

/// The message rows filed under one of the listed topics, in table order.
pub open spec fn messages_in_topics(
    ms: Seq<MessageView>,
    mts: Seq<MessageTopic>,
    topic_ids: Seq<Id>,
) -> Seq<MessageView> {
    ms.filter(msg_in_topics_pred(mts, topic_ids))
}

/// Holds of a message row linked to this stream.
pub open spec fn msg_in_stream_pred(mss: Seq<MessageStream>, stream_id: Id) -> spec_fn(
    MessageView,
) -> bool {
    |m: MessageView| has_message_stream(mss, m.message_id, stream_id)
}

/// The message rows linked to this stream, in table order — the flattened
/// thread, root included.
pub open spec fn stream_messages(
    ms: Seq<MessageView>,
    mss: Seq<MessageStream>,
    stream_id: Id,
) -> Seq<MessageView> {
    ms.filter(msg_in_stream_pred(mss, stream_id))
}

/// Holds of a message row whose id is listed.
pub open spec fn msg_in_ids_pred(message_ids: Seq<Id>) -> spec_fn(MessageView) -> bool {
    |m: MessageView| message_ids.contains(m.message_id)
}

/// The message rows whose id is listed, in table order.
pub open spec fn messages_by_ids(ms: Seq<MessageView>, message_ids: Seq<Id>) -> Seq<MessageView> {
    ms.filter(msg_in_ids_pred(message_ids))
}

/// Holds of a subscription row of this user among the listed topics.
pub open spec fn subscription_among_pred(topic_ids: Seq<Id>, user_id: Id) -> spec_fn(
    TopicUser,
) -> bool {
    |tu: TopicUser| topic_ids.contains(tu.topic_id) && tu.user_id == user_id
}

/// The subscription rows of this user among the listed topics, in table
/// order.
pub open spec fn subscriptions_among(
    tus: Seq<TopicUser>,
    topic_ids: Seq<Id>,
    user_id: Id,
) -> Seq<TopicUser> {
    tus.filter(subscription_among_pred(topic_ids, user_id))
}

/// Holds of a topic row this message is filed under.
pub open spec fn topic_of_message_pred(mts: Seq<MessageTopic>, message_id: Id) -> spec_fn(
    TopicView,
) -> bool {
    |t: TopicView| has_message_topic(mts, message_id, t.topic_id)
}

/// The topic rows a message is filed under, in table order.
pub open spec fn topics_of_message(
    ts: Seq<TopicView>,
    mts: Seq<MessageTopic>,
    message_id: Id,
) -> Seq<TopicView> {
    ts.filter(topic_of_message_pred(mts, message_id))
}

// ---------------------------------------------------------------------------
// Well-formedness: what the schema's constraints guarantee of any reachable
// store.
// ---------------------------------------------------------------------------

/// Message rows are strictly ordered by primary key.
pub open spec fn messages_ordered(ms: Seq<MessageView>) -> bool {
    forall|i: int, j: int| #![trigger ms[i], ms[j]] 0 <= i < j < ms.len() ==> ms[i].message_id < ms[j].message_id
}

/// Every message primary key is below the bound.
pub open spec fn messages_below(ms: Seq<MessageView>, bound: Id) -> bool {
    forall|i: int| #![trigger ms[i]] 0 <= i < ms.len() ==> ms[i].message_id < bound
}

/// Topic rows are strictly ordered by primary key.
pub open spec fn topics_ordered(ts: Seq<TopicView>) -> bool {
    forall|i: int, j: int| #![trigger ts[i], ts[j]] 0 <= i < j < ts.len() ==> ts[i].topic_id < ts[j].topic_id
}

/// Every topic primary key is below the bound.
pub open spec fn topics_below(ts: Seq<TopicView>, bound: Id) -> bool {
    forall|i: int| #![trigger ts[i]] 0 <= i < ts.len() ==> ts[i].topic_id < bound
}

/// Stream rows are strictly ordered by primary key.
pub open spec fn streams_ordered(ss: Seq<StreamView>) -> bool {
    forall|i: int, j: int| #![trigger ss[i], ss[j]] 0 <= i < j < ss.len() ==> ss[i].stream_id < ss[j].stream_id
}

/// Every stream primary key is below the bound.
pub open spec fn streams_below(ss: Seq<StreamView>, bound: Id) -> bool {
    forall|i: int| #![trigger ss[i]] 0 <= i < ss.len() ==> ss[i].stream_id < bound
}

/// Subscription rows are strictly ordered by primary key.
pub open spec fn topic_users_ordered(tus: Seq<TopicUser>) -> bool {
    forall|i: int, j: int| #![trigger tus[i], tus[j]] 0 <= i < j < tus.len() ==> tus[i].topic_user_id < tus[j].topic_user_id
}

/// Every subscription primary key is below the bound.
pub open spec fn topic_users_below(tus: Seq<TopicUser>, bound: Id) -> bool {
    forall|i: int| #![trigger tus[i]] 0 <= i < tus.len() ==> tus[i].topic_user_id < bound
}

/// Link rows are strictly ordered by primary key.
pub open spec fn message_streams_ordered(mss: Seq<MessageStream>) -> bool {
    forall|i: int, j: int|
        #![trigger mss[i], mss[j]]
        0 <= i < j < mss.len() ==> mss[i].message_stream_id < mss[j].message_stream_id
}

/// Every link primary key is below the bound.
pub open spec fn message_streams_below(mss: Seq<MessageStream>, bound: Id) -> bool {
    forall|i: int| #![trigger mss[i]] 0 <= i < mss.len() ==> mss[i].message_stream_id < bound
}

/// Filing rows are strictly ordered by primary key.
pub open spec fn message_topics_ordered(mts: Seq<MessageTopic>) -> bool {
    forall|i: int, j: int|
        #![trigger mts[i], mts[j]]
        0 <= i < j < mts.len() ==> mts[i].message_topic_id < mts[j].message_topic_id
}

/// Every filing primary key is below the bound.
pub open spec fn message_topics_below(mts: Seq<MessageTopic>, bound: Id) -> bool {
    forall|i: int| #![trigger mts[i]] 0 <= i < mts.len() ==> mts[i].message_topic_id < bound
}

/// Membership rows are strictly ordered by primary key.
pub open spec fn stream_users_ordered(sus: Seq<StreamUser>) -> bool {
    forall|i: int, j: int|
        #![trigger sus[i], sus[j]]
        0 <= i < j < sus.len() ==> sus[i].stream_user_id < sus[j].stream_user_id
}

/// Every membership primary key is below the bound.
pub open spec fn stream_users_below(sus: Seq<StreamUser>, bound: Id) -> bool {
    forall|i: int| #![trigger sus[i]] 0 <= i < sus.len() ==> sus[i].stream_user_id < bound
}

impl StoreView {
    /// Every table is sorted by its primary key and every key is below the
    /// allocator; keys are therefore unique and creation-ordered.
    pub open spec fn pks_wf(self) -> bool {
        &&& messages_ordered(self.messages) && messages_below(self.messages, self.next_id)
        &&& topics_ordered(self.topics) && topics_below(self.topics, self.next_id)
        &&& streams_ordered(self.streams) && streams_below(self.streams, self.next_id)
        &&& topic_users_ordered(self.topic_users) && topic_users_below(
            self.topic_users,
            self.next_id,
        )
        &&& message_streams_ordered(self.message_streams) && message_streams_below(
            self.message_streams,
            self.next_id,
        )
        &&& message_topics_ordered(self.message_topics) && message_topics_below(
            self.message_topics,
            self.next_id,
        )
        &&& stream_users_ordered(self.stream_users) && stream_users_below(
            self.stream_users,
            self.next_id,
        )
    }

    /// The unique constraints of the schema beyond primary keys.
    pub open spec fn keys_wf(self) -> bool {
        // exactly one stream per root message
        &&& forall|i: int, j: int|
            0 <= i < j < self.streams.len() ==> self.streams[i].message_id
                != self.streams[j].message_id
        // at most one subscription per (topic, user)
        &&& forall|i: int, j: int|
            0 <= i < j < self.topic_users.len() ==> !(self.topic_users[i].topic_id
                == self.topic_users[j].topic_id && self.topic_users[i].user_id
                == self.topic_users[j].user_id)
        // at most one link per (message, stream)
        &&& forall|i: int, j: int|
            0 <= i < j < self.message_streams.len() ==> !(self.message_streams[i].message_id
                == self.message_streams[j].message_id && self.message_streams[i].stream_id
                == self.message_streams[j].stream_id)
        // at most one filing per (message, topic)
        &&& forall|i: int, j: int|
            0 <= i < j < self.message_topics.len() ==> !(self.message_topics[i].message_id
                == self.message_topics[j].message_id && self.message_topics[i].topic_id
                == self.message_topics[j].topic_id)
        // at most one membership per (stream, user)
        &&& forall|i: int, j: int|
            0 <= i < j < self.stream_users.len() ==> !(self.stream_users[i].stream_id
                == self.stream_users[j].stream_id && self.stream_users[i].user_id
                == self.stream_users[j].user_id)
    }

    /// Every reachable store satisfies this.
    pub open spec fn wf(self) -> bool {
        self.pks_wf() && self.keys_wf()
    }
}

// ---------------------------------------------------------------------------
// Transitions: what each write primitive does to the store, as a function.
// ---------------------------------------------------------------------------

/// The id `bump` hands out next.
pub open spec fn bumped(next_id: Id) -> Id {
    ((next_id + 1) as Id)
}

/// Insert a new message row with a fresh id.
pub open spec fn app_message(
    s: StoreView,
    user_id: Id,
    text: Seq<char>,
    code: Seq<char>,
    now: i64,
) -> (StoreView, MessageView) {
    let m = MessageView {
        message_id: s.next_id,
        user_id,
        text,
        code,
        created_at: now,
        updated_at: now,
    };
    (StoreView { next_id: bumped(s.next_id), messages: s.messages.push(m), ..s }, m)
}

/// Insert a new topic row with a fresh id.
pub open spec fn app_topic(s: StoreView, user_id: Id, title: Seq<char>, now: i64) -> (
    StoreView,
    TopicView,
) {
    let t = TopicView { topic_id: s.next_id, user_id, title, created_at: now, updated_at: now };
    (StoreView { next_id: bumped(s.next_id), topics: s.topics.push(t), ..s }, t)
}

/// Insert-or-ignore a stream keyed by its root message, then read the row by
/// that key: concurrent first replies converge on a single stream row.
/// A fresh stream starts with `messages_count` 2 (root plus first reply).
pub open spec fn upsert_stream(s: StoreView, root_message_id: Id, text: Seq<char>, now: i64) -> (
    StoreView,
    StreamView,
) {
    if has_stream_for_root(s.streams, root_message_id) {
        (s, stream_for_root(s.streams, root_message_id))
    } else {
        let st = StreamView {
            stream_id: s.next_id,
            text,
            message_id: root_message_id,
            messages_count: 2,
            created_at: now,
            updated_at: now,
        };
        (StoreView { next_id: bumped(s.next_id), streams: s.streams.push(st), ..s }, st)
    }
}

/// Insert-or-ignore a (message, stream) link row.
pub open spec fn link_message_stream(
    s: StoreView,
    message_id: Id,
    stream_id: Id,
    now: i64,
) -> StoreView {
    if has_message_stream(s.message_streams, message_id, stream_id) {
        s
    } else {
        let row = MessageStream {
            message_stream_id: s.next_id,
            message_id,
            stream_id,
            created_at: now,
            updated_at: now,
        };
        StoreView {
            next_id: bumped(s.next_id),
            message_streams: s.message_streams.push(row),
            ..s
        }
    }
}

/// Insert-or-ignore a (stream, user) membership row: membership only grows.
pub open spec fn join_stream_user(
    s: StoreView,
    stream_id: Id,
    user_id: Id,
    now: i64,
) -> StoreView {
    if has_stream_user(s.stream_users, stream_id, user_id) {
        s
    } else {
        let row = StreamUser {
            stream_user_id: s.next_id,
            user_id,
            stream_id,
            created_at: now,
            updated_at: now,
        };
        StoreView { next_id: bumped(s.next_id), stream_users: s.stream_users.push(row), ..s }
    }
}

/// Insert-or-ignore a (message, topic) filing row.
pub open spec fn file_message_topic(
    s: StoreView,
    message_id: Id,
    topic_id: Id,
    now: i64,
) -> StoreView {
    if has_message_topic(s.message_topics, message_id, topic_id) {
        s
    } else {
        let row = MessageTopic {
            message_topic_id: s.next_id,
            message_id,
            topic_id,
            created_at: now,
            updated_at: now,
        };
        StoreView { next_id: bumped(s.next_id), message_topics: s.message_topics.push(row), ..s }
    }
}

/// File a message under each listed topic in order.
pub open spec fn file_message_topics(
    s: StoreView,
    message_id: Id,
    topic_ids: Seq<Id>,
    now: i64,
) -> StoreView
    decreases topic_ids.len(),
{
    if topic_ids.len() == 0 {
        s
    } else {
        file_message_topics(
            file_message_topic(s, message_id, topic_ids[0], now),
            message_id,
            topic_ids.skip(1),
            now,
        )
    }
}

/// Insert-or-ignore a subscription keyed by (topic, user), then read the row
/// by that key: creating a subscription twice yields the same row.
/// A fresh subscription starts with the default delivery preferences.
pub open spec fn upsert_topic_user(s: StoreView, user_id: Id, topic_id: Id, now: i64) -> (
    StoreView,
    TopicUser,
) {
    if has_subscription(s.topic_users, topic_id, user_id) {
        (s, subscription_for(s.topic_users, topic_id, user_id))
    } else {
        let tu = TopicUser {
            topic_user_id: s.next_id,
            user_id,
            topic_id,
            rate: crate::model::Rate::Q,
            timing: crate::model::Timing::Instant,
            created_at: now,
            updated_at: now,
        };
        (StoreView { next_id: bumped(s.next_id), topic_users: s.topic_users.push(tu), ..s }, tu)
    }
}

/// The subscription row as `set_topic_user` rewrites it.
pub open spec fn topic_user_updated(
    tu: TopicUser,
    rate: crate::model::Rate,
    timing: crate::model::Timing,
    now: i64,
) -> TopicUser {
    TopicUser { rate, timing, updated_at: now, ..tu }
}

/// Rewrite the delivery preferences of the subscription with this id; rows
/// with other ids are untouched.
pub open spec fn set_topic_user(
    s: StoreView,
    topic_user_id: Id,
    rate: crate::model::Rate,
    timing: crate::model::Timing,
    now: i64,
) -> StoreView {
    StoreView {
        topic_users: s.topic_users.map_values(
            |tu: TopicUser|
                if tu.topic_user_id == topic_user_id {
                    topic_user_updated(tu, rate, timing, now)
                } else {
                    tu
                },
        ),
        ..s
    }
}

/// The post-commit counter step: add one to the touched stream's message
/// count (stopping at the machine limit), leaving every other row untouched.
/// This step is applied outside the creating transaction and can be lost, so
/// the count is a best-effort cache, not a live row count.
pub open spec fn bump_stream_count(s: StoreView, stream_id: Id, now: i64) -> StoreView {
    StoreView {
        streams: s.streams.map_values(
            |st: StreamView|
                if st.stream_id == stream_id {
                    StreamView {
                        messages_count: if st.messages_count == i64::MAX {
                            st.messages_count
                        } else {
                            (st.messages_count + 1) as i64
                        },
                        updated_at: now,
                        ..st
                    }
                } else {
                    st
                },
        ),
        ..s
    }
}

/// Delete the subscription row with this id; rows with other ids survive in
/// order. Leaves the store unchanged when no such row exists.
pub open spec fn remove_topic_user(s: StoreView, topic_user_id: Id) -> StoreView {
    if has_topic_user(s.topic_users, topic_user_id) {
        let i = choose|i: int|
            0 <= i < s.topic_users.len() && s.topic_users[i].topic_user_id == topic_user_id;
        StoreView { topic_users: s.topic_users.remove(i), ..s }
    } else {
        s
    }
}

// ---------------------------------------------------------------------------
// Helper lemmas about sequences.
// ---------------------------------------------------------------------------

/// Filtering a pushed sequence filters the prefix and then decides the pushed
/// element.
pub proof fn lemma_filter_push<A>(s: Seq<A>, x: A, p: spec_fn(A) -> bool)
    ensures
        s.push(x).filter(p) == (if p(x) {
            s.filter(p).push(x)
        } else {
            s.filter(p)
        }),
{
    reveal(Seq::filter);
    assert(s.push(x).drop_last() =~= s);
    assert(s.push(x).last() == x);
}

/// Filtering the empty sequence yields the empty sequence.
pub proof fn lemma_filter_empty<A>(p: spec_fn(A) -> bool)
    ensures
        Seq::<A>::empty().filter(p) == Seq::<A>::empty(),
{
    reveal(Seq::filter);
}

/// One step of a filtering loop: extending the prefix by one element either
/// appends that element to the filtered prefix or leaves it unchanged.
pub proof fn lemma_filter_take_step<A>(s: Seq<A>, i: int, p: spec_fn(A) -> bool)
    requires
        0 <= i < s.len(),
    ensures
        s.take(i + 1).filter(p) == (if p(s[i]) {
            s.take(i).filter(p).push(s[i])
        } else {
            s.take(i).filter(p)
        }),
{
    assert(s.take(i + 1) =~= s.take(i).push(s[i]));
    lemma_filter_push(s.take(i), s[i], p);
}

/// Filtering keeps the strict order of message ids, and every kept row is a
/// row of the original sequence.
pub proof fn lemma_filter_messages_ordered(ms: Seq<MessageView>, p: spec_fn(MessageView) -> bool)
    requires
        messages_ordered(ms),
    ensures
        messages_ordered(ms.filter(p)),
        forall|k: int|
            0 <= k < ms.filter(p).len() ==> exists|i: int|
                0 <= i < ms.len() && ms[i] == #[trigger] ms.filter(p)[k],
    decreases ms.len(),
{
    reveal(Seq::filter);
    if ms.len() > 0 {
        let t = ms.drop_last();
        let x = ms.last();
        lemma_filter_messages_ordered(t, p);
        assert forall|k: int|
            0 <= k < ms.filter(p).len() implies exists|i: int|
            0 <= i < ms.len() && ms[i] == #[trigger] ms.filter(p)[k] by {
            if k < t.filter(p).len() {
                let i = choose|i: int| 0 <= i < t.len() && t[i] == t.filter(p)[k];
                assert(ms[i] == ms.filter(p)[k]);
            } else {
                assert(ms[ms.len() - 1] == ms.filter(p)[k]);
            }
        }
        assert forall|k1: int, k2: int|
            0 <= k1 < k2 < ms.filter(p).len() implies ms.filter(p)[k1].message_id < ms.filter(
            p,
        )[k2].message_id by {
            if k2 < t.filter(p).len() {
            } else {
                let i = choose|i: int| 0 <= i < t.len() && t[i] == t.filter(p)[k1];
                assert(ms[i].message_id < x.message_id);
            }
        }
    }
}

/// With ordered (hence unique) keys, the row found by key is the row at any
/// matching index.
pub proof fn lemma_message_at_index(ms: Seq<MessageView>, message_id: Id, i: int)
    requires
        messages_ordered(ms),
        0 <= i < ms.len(),
        ms[i].message_id == message_id,
    ensures
        has_message(ms, message_id),
        message_with_id(ms, message_id) == ms[i],
{
    assert(has_message(ms, message_id));
    let j = choose|j: int| 0 <= j < ms.len() && ms[j].message_id == message_id;
    if j < i {
        assert(ms[j].message_id < ms[i].message_id);
    }
    if j > i {
        assert(ms[i].message_id < ms[j].message_id);
    }
}

/// With unique roots, the stream found by root is the row at any matching
/// index.
pub proof fn lemma_stream_at_index(ss: Seq<StreamView>, root_message_id: Id, i: int)
    requires
        forall|a: int, b: int|
            0 <= a < b < ss.len() ==> ss[a].message_id != ss[b].message_id,
        0 <= i < ss.len(),
        ss[i].message_id == root_message_id,
    ensures
        has_stream_for_root(ss, root_message_id),
        stream_for_root(ss, root_message_id) == ss[i],
{
    assert(has_stream_for_root(ss, root_message_id));
    let j = choose|j: int| 0 <= j < ss.len() && ss[j].message_id == root_message_id;
    if j < i {
        assert(ss[j].message_id != ss[i].message_id);
    }
    if j > i {
        assert(ss[i].message_id != ss[j].message_id);
    }
}

// ---------------------------------------------------------------------------
// The write primitives preserve well-formedness.
// ---------------------------------------------------------------------------

/// Inserting a message keeps the store well formed.
pub proof fn lemma_app_message_wf(
    s: StoreView,
    user_id: Id,
    text: Seq<char>,
    code: Seq<char>,
    now: i64,
)
    requires
        s.wf(),
        s.next_id < u128::MAX,
    ensures
        app_message(s, user_id, text, code, now).0.wf(),
        app_message(s, user_id, text, code, now).0.next_id == s.next_id + 1,
{
}

/// Inserting a topic keeps the store well formed.
pub proof fn lemma_app_topic_wf(s: StoreView, user_id: Id, title: Seq<char>, now: i64)
    requires
        s.wf(),
        s.next_id < u128::MAX,
    ensures
        app_topic(s, user_id, title, now).0.wf(),
        app_topic(s, user_id, title, now).0.next_id == s.next_id + 1,
{
}

/// Upserting a stream keeps the store well formed, and afterwards the stream
/// rooted at the given message is exactly the returned row.
pub proof fn lemma_upsert_stream_wf(s: StoreView, root_message_id: Id, text: Seq<char>, now: i64)
    requires
        s.wf(),
        s.next_id < u128::MAX,
    ensures
        ({
            let (s2, st) = upsert_stream(s, root_message_id, text, now);
            &&& s2.wf()
            &&& s.next_id <= s2.next_id <= s.next_id + 1
            &&& has_stream_for_root(s2.streams, root_message_id)
            &&& stream_for_root(s2.streams, root_message_id) == st
            &&& st.message_id == root_message_id
        }),
{
    let (s2, st) = upsert_stream(s, root_message_id, text, now);
    if has_stream_for_root(s.streams, root_message_id) {
        let i = choose|i: int|
            0 <= i < s.streams.len() && s.streams[i].message_id == root_message_id;
        let j = choose|j: int|
            0 <= j < s2.streams.len() && s2.streams[j].message_id == root_message_id;
        assert(i == j);
    } else {
        let n = s.streams.len() as int;
        assert(s2.streams[n].message_id == root_message_id);
        assert forall|i: int, j: int| 0 <= i < j < s2.streams.len() implies s2.streams[i].message_id
            != s2.streams[j].message_id by {
            if j == n {
                if s2.streams[i].message_id == root_message_id {
                    assert(has_stream_for_root(s.streams, root_message_id));
                }
            }
        }
        let j = choose|j: int|
            0 <= j < s2.streams.len() && s2.streams[j].message_id == root_message_id;
        assert(j == n);
    }
}

/// Linking a message to a stream keeps the store well formed, and afterwards
/// the link row exists.
pub proof fn lemma_link_message_stream_wf(s: StoreView, message_id: Id, stream_id: Id, now: i64)
    requires
        s.wf(),
        s.next_id < u128::MAX,
    ensures
        ({
            let s2 = link_message_stream(s, message_id, stream_id, now);
            &&& s2.wf()
            &&& s.next_id <= s2.next_id <= s.next_id + 1
            &&& has_message_stream(s2.message_streams, message_id, stream_id)
            &&& forall|m: Id, t: Id|
                has_message_stream(s.message_streams, m, t) ==> has_message_stream(
                    s2.message_streams,
                    m,
                    t,
                )
        }),
{
    let s2 = link_message_stream(s, message_id, stream_id, now);
    if !has_message_stream(s.message_streams, message_id, stream_id) {
        let n = s.message_streams.len() as int;
        assert(s2.message_streams[n].message_id == message_id && s2.message_streams[n].stream_id
            == stream_id);
        assert forall|i: int, j: int|
            0 <= i < j < s2.message_streams.len() implies !(s2.message_streams[i].message_id
            == s2.message_streams[j].message_id && s2.message_streams[i].stream_id
            == s2.message_streams[j].stream_id) by {
            if j == n {
                if s2.message_streams[i].message_id == message_id
                    && s2.message_streams[i].stream_id == stream_id {
                    assert(has_message_stream(s.message_streams, message_id, stream_id));
                }
            }
        }
    }
    assert forall|m: Id, t: Id|
        has_message_stream(s.message_streams, m, t) implies has_message_stream(
        s2.message_streams,
        m,
        t,
    ) by {
        let i = choose|i: int|
            0 <= i < s.message_streams.len() && s.message_streams[i].message_id == m
                && s.message_streams[i].stream_id == t;
        assert(s2.message_streams[i].message_id == m && s2.message_streams[i].stream_id == t);
    }
}

/// Recording a stream membership keeps the store well formed, and afterwards
/// the membership row exists; existing memberships survive.
pub proof fn lemma_join_stream_user_wf(s: StoreView, stream_id: Id, user_id: Id, now: i64)
    requires
        s.wf(),
        s.next_id < u128::MAX,
    ensures
        ({
            let s2 = join_stream_user(s, stream_id, user_id, now);
            &&& s2.wf()
            &&& s.next_id <= s2.next_id <= s.next_id + 1
            &&& has_stream_user(s2.stream_users, stream_id, user_id)
            &&& forall|t: Id, u: Id|
                has_stream_user(s.stream_users, t, u) ==> has_stream_user(s2.stream_users, t, u)
        }),
{
    let s2 = join_stream_user(s, stream_id, user_id, now);
    if !has_stream_user(s.stream_users, stream_id, user_id) {
        let n = s.stream_users.len() as int;
        assert(s2.stream_users[n].stream_id == stream_id && s2.stream_users[n].user_id == user_id);
        assert forall|i: int, j: int|
            0 <= i < j < s2.stream_users.len() implies !(s2.stream_users[i].stream_id
            == s2.stream_users[j].stream_id && s2.stream_users[i].user_id
            == s2.stream_users[j].user_id) by {
            if j == n {
                if s2.stream_users[i].stream_id == stream_id && s2.stream_users[i].user_id
                    == user_id {
                    assert(has_stream_user(s.stream_users, stream_id, user_id));
                }
            }
        }
    }
    assert forall|t: Id, u: Id|
        has_stream_user(s.stream_users, t, u) implies has_stream_user(s2.stream_users, t, u) by {
        let i = choose|i: int|
            0 <= i < s.stream_users.len() && s.stream_users[i].stream_id == t
                && s.stream_users[i].user_id == u;
        assert(s2.stream_users[i].stream_id == t && s2.stream_users[i].user_id == u);
    }
}

/// Filing a message under a topic keeps the store well formed, and afterwards
/// the filing row exists; existing filings survive.
pub proof fn lemma_file_message_topic_wf(s: StoreView, message_id: Id, topic_id: Id, now: i64)
    requires
        s.wf(),
        s.next_id < u128::MAX,
    ensures
        ({
            let s2 = file_message_topic(s, message_id, topic_id, now);
            &&& s2.wf()
            &&& s.next_id <= s2.next_id <= s.next_id + 1
            &&& has_message_topic(s2.message_topics, message_id, topic_id)
            &&& forall|m: Id, t: Id|
                has_message_topic(s.message_topics, m, t) ==> has_message_topic(
                    s2.message_topics,
                    m,
                    t,
                )
        }),
{
    let s2 = file_message_topic(s, message_id, topic_id, now);
    if !has_message_topic(s.message_topics, message_id, topic_id) {
        let n = s.message_topics.len() as int;
        assert(s2.message_topics[n].message_id == message_id && s2.message_topics[n].topic_id
            == topic_id);
        assert forall|i: int, j: int|
            0 <= i < j < s2.message_topics.len() implies !(s2.message_topics[i].message_id
            == s2.message_topics[j].message_id && s2.message_topics[i].topic_id
            == s2.message_topics[j].topic_id) by {
            if j == n {
                if s2.message_topics[i].message_id == message_id && s2.message_topics[i].topic_id
                    == topic_id {
                    assert(has_message_topic(s.message_topics, message_id, topic_id));
                }
            }
        }
    }
    assert forall|m: Id, t: Id|
        has_message_topic(s.message_topics, m, t) implies has_message_topic(
        s2.message_topics,
        m,
        t,
    ) by {
        let i = choose|i: int|
            0 <= i < s.message_topics.len() && s.message_topics[i].message_id == m
                && s.message_topics[i].topic_id == t;
        assert(s2.message_topics[i].message_id == m && s2.message_topics[i].topic_id == t);
    }
}

/// Filing a message under a list of topics keeps the store well formed,
/// touches only the filing table, and files the message under every listed
/// topic.
pub proof fn lemma_file_message_topics_wf(
    s: StoreView,
    message_id: Id,
    topic_ids: Seq<Id>,
    now: i64,
)
    requires
        s.wf(),
        s.next_id + topic_ids.len() <= u128::MAX,
    ensures
        ({
            let s2 = file_message_topics(s, message_id, topic_ids, now);
            &&& s2.wf()
            &&& s.next_id <= s2.next_id <= s.next_id + topic_ids.len()
            &&& s2.messages == s.messages
            &&& s2.topics == s.topics
            &&& s2.streams == s.streams
            &&& s2.topic_users == s.topic_users
            &&& s2.message_streams == s.message_streams
            &&& s2.stream_users == s.stream_users
            &&& forall|k: int|
                0 <= k < topic_ids.len() ==> has_message_topic(
                    s2.message_topics,
                    message_id,
                    #[trigger] topic_ids[k],
                )
            &&& forall|m: Id, t: Id|
                has_message_topic(s.message_topics, m, t) ==> has_message_topic(
                    s2.message_topics,
                    m,
                    t,
                )
        }),
    decreases topic_ids.len(),
{
    if topic_ids.len() > 0 {
        lemma_file_message_topic_wf(s, message_id, topic_ids[0], now);
        let s1 = file_message_topic(s, message_id, topic_ids[0], now);
        lemma_file_message_topics_wf(s1, message_id, topic_ids.skip(1), now);
        let s2 = file_message_topics(s1, message_id, topic_ids.skip(1), now);
        assert forall|k: int|
            0 <= k < topic_ids.len() implies has_message_topic(
            s2.message_topics,
            message_id,
            #[trigger] topic_ids[k],
        ) by {
            if k == 0 {
                assert(has_message_topic(s1.message_topics, message_id, topic_ids[0]));
            } else {
                assert(topic_ids.skip(1)[k - 1] == topic_ids[k]);
            }
        }
    }
}

/// Upserting a subscription keeps the store well formed, and afterwards the
/// subscription of the (topic, user) pair is exactly the returned row.
pub proof fn lemma_upsert_topic_user_wf(s: StoreView, user_id: Id, topic_id: Id, now: i64)
    requires
        s.wf(),
        s.next_id < u128::MAX,
    ensures
        ({
            let (s2, tu) = upsert_topic_user(s, user_id, topic_id, now);
            &&& s2.wf()
            &&& s.next_id <= s2.next_id <= s.next_id + 1
            &&& has_subscription(s2.topic_users, topic_id, user_id)
            &&& subscription_for(s2.topic_users, topic_id, user_id) == tu
            &&& tu.topic_id == topic_id && tu.user_id == user_id
            &&& has_topic_user(s2.topic_users, tu.topic_user_id)
            &&& topic_user_with_id(s2.topic_users, tu.topic_user_id) == tu
        }),
{
    let (s2, tu) = upsert_topic_user(s, user_id, topic_id, now);
    if has_subscription(s.topic_users, topic_id, user_id) {
        let i = choose|i: int|
            0 <= i < s.topic_users.len() && s.topic_users[i].topic_id == topic_id
                && s.topic_users[i].user_id == user_id;
        let j = choose|j: int|
            0 <= j < s2.topic_users.len() && s2.topic_users[j].topic_id == topic_id
                && s2.topic_users[j].user_id == user_id;
        assert(i == j);
        assert(has_topic_user(s2.topic_users, tu.topic_user_id));
        let k = choose|k: int|
            0 <= k < s2.topic_users.len() && s2.topic_users[k].topic_user_id == tu.topic_user_id;
        assert(k == i);
    } else {
        let n = s.topic_users.len() as int;
        assert(s2.topic_users[n] == tu);
        assert forall|i: int, j: int|
            0 <= i < j < s2.topic_users.len() implies !(s2.topic_users[i].topic_id
            == s2.topic_users[j].topic_id && s2.topic_users[i].user_id
            == s2.topic_users[j].user_id) by {
            if j == n {
                if s2.topic_users[i].topic_id == topic_id && s2.topic_users[i].user_id == user_id {
                    assert(has_subscription(s.topic_users, topic_id, user_id));
                }
            }
        }
        let j = choose|j: int|
            0 <= j < s2.topic_users.len() && s2.topic_users[j].topic_id == topic_id
                && s2.topic_users[j].user_id == user_id;
        assert(j == n);
        assert(has_topic_user(s2.topic_users, tu.topic_user_id));
        let k = choose|k: int|
            0 <= k < s2.topic_users.len() && s2.topic_users[k].topic_user_id == tu.topic_user_id;
        assert(k == n);
    }
}

/// Bumping a stream's message count keeps the store well formed.
pub proof fn lemma_bump_stream_count_wf(s: StoreView, stream_id: Id, now: i64)
    requires
        s.wf(),
    ensures
        bump_stream_count(s, stream_id, now).wf(),
{
}

/// Rewriting a subscription's delivery preferences keeps the store well
/// formed.
pub proof fn lemma_set_topic_user_wf(
    s: StoreView,
    topic_user_id: Id,
    rate: crate::model::Rate,
    timing: crate::model::Timing,
    now: i64,
)
    requires
        s.wf(),
    ensures
        set_topic_user(s, topic_user_id, rate, timing, now).wf(),
{
}

/// Deleting a subscription keeps the store well formed, and afterwards no
/// subscription row carries the deleted id.
pub proof fn lemma_remove_topic_user_wf(s: StoreView, topic_user_id: Id)
    requires
        s.wf(),
    ensures
        remove_topic_user(s, topic_user_id).wf(),
        !has_topic_user(remove_topic_user(s, topic_user_id).topic_users, topic_user_id),
{
    let s2 = remove_topic_user(s, topic_user_id);
    if has_topic_user(s.topic_users, topic_user_id) {
        let i = choose|i: int|
            0 <= i < s.topic_users.len() && s.topic_users[i].topic_user_id == topic_user_id;
        s.topic_users.remove_ensures(i);
        assert forall|k: int|
            0 <= k < s2.topic_users.len() implies s2.topic_users[k].topic_user_id
            != topic_user_id by {
            if k < i {
                assert(s2.topic_users[k] == s.topic_users[k]);
            } else {
                assert(s2.topic_users[k] == s.topic_users[k + 1]);
            }
        }
    } else {
        assert forall|k: int|
            0 <= k < s2.topic_users.len() implies s2.topic_users[k].topic_user_id
            != topic_user_id by {
            assert(!has_topic_user(s.topic_users, topic_user_id));
        }
    }
}

// ---------------------------------------------------------------------------
// The executable store.
// ---------------------------------------------------------------------------

/// The in-memory store: one vector per table plus the id allocator.
pub struct Store {
    pub next_id: Id,
    pub messages: Vec<Message>,
    pub topics: Vec<Topic>,
    pub streams: Vec<Stream>,
    pub topic_users: Vec<TopicUser>,
    pub message_streams: Vec<MessageStream>,
    pub message_topics: Vec<MessageTopic>,
    pub stream_users: Vec<StreamUser>,
}

impl View for Store {
    type V = StoreView;

    open spec fn view(&self) -> StoreView {
        StoreView {
            next_id: self.next_id,
            messages: message_views(self.messages@),
            topics: topic_views(self.topics@),
            streams: stream_views(self.streams@),
            topic_users: self.topic_users@,
            message_streams: self.message_streams@,
            message_topics: self.message_topics@,
            stream_users: self.stream_users@,
        }
    }
}

impl Store {
    /// Shorthand for the well-formedness of the store's value.
    pub open spec fn wf(self) -> bool {
        self@.wf()
    }

    /// An empty store.
    pub fn new() -> (s: Store)
        ensures
            s@ == empty_store(),
            s.wf(),
    {
        let s = Store {
            next_id: 1,
            messages: Vec::new(),
            topics: Vec::new(),
            streams: Vec::new(),
            topic_users: Vec::new(),
            message_streams: Vec::new(),
            message_topics: Vec::new(),
            stream_users: Vec::new(),
        };
        proof {
            assert(s@ =~= empty_store());
        }
        s
    }
}

} // verus!
