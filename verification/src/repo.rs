//! The persistence adapter: atomic create / read / upsert primitives per
//! entity, as verified operations on the in-memory store.
//!
//! Each write states exactly which transition of [`crate::store`] it applies;
//! each read states exactly which rows it returns and in what order. The
//! upserts (`create_stream`, `create_topic_user`) are the race-safe
//! "insert-or-ignore by unique key, then re-read" primitives: they never
//! create a second row for an existing key.

use vstd::prelude::*;

use crate::model::{
    Id, Message, MessageStream, MessageTopic, MessageView, Stream, StreamUser, Topic, TopicUser,
    message_views, stream_views, topic_views,
};
use crate::model::{Rate, Timing, TopicView};
use crate::store::{
    Store, app_message, app_topic, file_message_topic, has_message, has_message_stream,
    has_message_topic, has_stream_for_root, has_stream_user, has_subscription, has_topic,
    has_topic_user, lemma_filter_empty, lemma_filter_take_step, link_message_stream,
    message_with_id, messages_by_ids, messages_in_topics, msg_in_ids_pred, msg_in_topics_pred,
    bump_stream_count, msg_in_stream_pred, owned_in_pred, owned_topics_among, remove_topic_user,
    set_topic_user, stream_for_root, stream_messages, subscribed_pred, subscribed_topics,
    subscription_among_pred, subscription_for, subscriptions_among,
    topic_in_ids_pred, topic_of_message_pred, topic_of_users_pred, topic_user_updated,
    topic_user_with_id, topic_with_id, topics_by_ids, topics_of_message, topics_of_users,
    upsert_stream, upsert_topic_user,
};

verus! {

/// Whether the id list contains the given id.
pub(crate) fn contains_id(ids: &Vec<Id>, x: Id) -> (r: bool)
    ensures
        r == ids@.contains(x),
{
    let mut i: usize = 0;
    while i < ids.len()
        invariant
            i <= ids@.len(),
            forall|k: int| 0 <= k < i ==> ids@[k] != x,
        decreases ids@.len() - i,
    {
        if ids[i] == x {
            return true;
        }
        i += 1;
    }
    false
}

impl Store {
    /// Insert a new message row; its id is freshly allocated.
    pub fn create_message(&mut self, user_id: Id, text: String, code: String, now: i64) -> (m:
        Message)
        requires
            old(self).next_id < u128::MAX,
        ensures
            final(self)@ == app_message(old(self)@, user_id, text@, code@, now).0,
            m@ == app_message(old(self)@, user_id, text@, code@, now).1,
    {
        let message_id = self.next_id;
        self.next_id = self.next_id + 1;
        let m = Message { message_id, user_id, text, code, created_at: now, updated_at: now };
        let row = m.clone();
        self.messages.push(row);
        proof {
            assert(message_views(self.messages@) =~= message_views(old(self).messages@).push(m@));
            assert(self@ =~= app_message(old(self)@, user_id, m@.text, m@.code, now).0);
        }
        m
    }

    /// Read one message row by primary key.
    pub fn get_message_by_id(&self, message_id: Id) -> (r: Option<Message>)
        requires
            self.wf(),
        ensures
            match r {
                Some(m) => has_message(self@.messages, message_id) && m@ == message_with_id(
                    self@.messages,
                    message_id,
                ),
                None => !has_message(self@.messages, message_id),
            },
    {
        let n = self.messages.len();
        let mut i: usize = 0;
        while i < n
            invariant
                self.wf(),
                n == self.messages@.len(),
                i <= n,
                forall|k: int| 0 <= k < i ==> self@.messages[k].message_id != message_id,
            decreases n - i,
        {
            if self.messages[i].message_id == message_id {
                let m = self.messages[i].clone();
                proof {
                    assert(self@.messages[i as int].message_id == message_id);
                    assert(has_message(self@.messages, message_id));
                    let j = choose|j: int|
                        0 <= j < self@.messages.len() && self@.messages[j].message_id
                            == message_id;
                    if j < i as int {
                        assert(self@.messages[j].message_id < self@.messages[i as int].message_id);
                    }
                    if j > i as int {
                        assert(self@.messages[i as int].message_id < self@.messages[j].message_id);
                    }
                    assert(j == i as int);
                }
                return Some(m);
            }
            i += 1;
        }
        None
    }

    /// Read the subset of the listed messages that exist, in table order.
    /// Missing ids are no error.
    pub fn get_messages_by_ids(&self, message_ids: &Vec<Id>) -> (r: Vec<Message>)
        ensures
            message_views(r@) == messages_by_ids(self@.messages, message_ids@),
    {
        let ghost pred = msg_in_ids_pred(message_ids@);
        let mut out: Vec<Message> = Vec::new();
        let n = self.messages.len();
        let mut i: usize = 0;
        proof {
            lemma_filter_empty::<MessageView>(pred);
            assert(self@.messages.take(0) =~= Seq::<MessageView>::empty());
        }
        while i < n
            invariant
                n == self.messages@.len(),
                i <= n,
                message_views(out@) == self@.messages.take(i as int).filter(pred),
                pred == msg_in_ids_pred(message_ids@),
            decreases n - i,
        {
            let hit = contains_id(message_ids, self.messages[i].message_id);
            proof {
                lemma_filter_take_step(self@.messages, i as int, pred);
                assert(hit == pred(self@.messages[i as int]));
            }
            if hit {
                let ghost old_out = out@;
                let row = self.messages[i].clone();
                out.push(row);
                proof {
                    assert(message_views(out@) =~= message_views(old_out).push(
                        self@.messages[i as int],
                    ));
                }
            }
            i += 1;
        }
        proof {
            assert(self@.messages.take(n as int) =~= self@.messages);
        }
        out
    }

    /// Upsert the stream keyed by its root message: insert-or-ignore on the
    /// root's unique constraint, then read the row by that key. Concurrent
    /// first replies to the same root converge on one stream row.
    pub fn create_stream(&mut self, root_message_id: Id, text: String, now: i64) -> (st: Stream)
        requires
            old(self).wf(),
            old(self).next_id < u128::MAX,
        ensures
            final(self)@ == upsert_stream(old(self)@, root_message_id, text@, now).0,
            st@ == upsert_stream(old(self)@, root_message_id, text@, now).1,
    {
        let n = self.streams.len();
        let mut i: usize = 0;
        while i < n
            invariant
                self.wf(),
                n == self.streams@.len(),
                i <= n,
                forall|k: int| 0 <= k < i ==> self@.streams[k].message_id != root_message_id,
            decreases n - i,
        {
            if self.streams[i].message_id == root_message_id {
                let st = self.streams[i].clone();
                proof {
                    assert(self@.streams[i as int].message_id == root_message_id);
                    assert(has_stream_for_root(self@.streams, root_message_id));
                    let j = choose|j: int|
                        0 <= j < self@.streams.len() && self@.streams[j].message_id
                            == root_message_id;
                    if j < i as int {
                        assert(self@.streams[j].message_id != self@.streams[i as int].message_id);
                    }
                    if j > i as int {
                        assert(self@.streams[i as int].message_id != self@.streams[j].message_id);
                    }
                    assert(j == i as int);
                }
                return st;
            }
            i += 1;
        }
        let stream_id = self.next_id;
        self.next_id = self.next_id + 1;
        let st = Stream {
            stream_id,
            text,
            message_id: root_message_id,
            messages_count: 2,
            created_at: now,
            updated_at: now,
        };
        let row = st.clone();
        self.streams.push(row);
        proof {
            assert(!has_stream_for_root(old(self)@.streams, root_message_id));
            assert(stream_views(self.streams@) =~= stream_views(old(self).streams@).push(st@));
            assert(self@ =~= upsert_stream(old(self)@, root_message_id, st@.text, now).0);
        }
        st
    }

    /// Insert-or-ignore the (message, stream) link row.
    pub fn create_message_stream(&mut self, message_id: Id, stream_id: Id, now: i64)
        requires
            old(self).next_id < u128::MAX,
        ensures
            final(self)@ == link_message_stream(old(self)@, message_id, stream_id, now),
    {
        let n = self.message_streams.len();
        let mut i: usize = 0;
        while i < n
            invariant
                n == self.message_streams@.len(),
                i <= n,
                forall|k: int|
                    0 <= k < i ==> !(self@.message_streams[k].message_id == message_id
                        && self@.message_streams[k].stream_id == stream_id),
            decreases n - i,
        {
            if self.message_streams[i].message_id == message_id && self.message_streams[i].stream_id
                == stream_id {
                proof {
                    assert(has_message_stream(self@.message_streams, message_id, stream_id));
                }
                return ;
            }
            i += 1;
        }
        let row = MessageStream {
            message_stream_id: self.next_id,
            message_id,
            stream_id,
            created_at: now,
            updated_at: now,
        };
        self.next_id = self.next_id + 1;
        self.message_streams.push(row);
        proof {
            assert(!has_message_stream(old(self)@.message_streams, message_id, stream_id));
            assert(self@ =~= link_message_stream(old(self)@, message_id, stream_id, now));
        }
    }

    /// Insert-or-ignore the (stream, user) membership row.
    pub fn create_stream_user(&mut self, stream_id: Id, user_id: Id, now: i64)
        requires
            old(self).next_id < u128::MAX,
        ensures
            final(self)@ == crate::store::join_stream_user(old(self)@, stream_id, user_id, now),
    {
        let n = self.stream_users.len();
        let mut i: usize = 0;
        while i < n
            invariant
                n == self.stream_users@.len(),
                i <= n,
                forall|k: int|
                    0 <= k < i ==> !(self@.stream_users[k].stream_id == stream_id
                        && self@.stream_users[k].user_id == user_id),
            decreases n - i,
        {
            if self.stream_users[i].stream_id == stream_id && self.stream_users[i].user_id
                == user_id {
                proof {
                    assert(has_stream_user(self@.stream_users, stream_id, user_id));
                }
                return ;
            }
            i += 1;
        }
        let row = StreamUser {
            stream_user_id: self.next_id,
            user_id,
            stream_id,
            created_at: now,
            updated_at: now,
        };
        self.next_id = self.next_id + 1;
        self.stream_users.push(row);
        proof {
            assert(!has_stream_user(old(self)@.stream_users, stream_id, user_id));
            assert(self@ =~= crate::store::join_stream_user(old(self)@, stream_id, user_id, now));
        }
    }

    /// Read the topics among the listed ids that are owned by the given
    /// user, in table order.
    pub fn get_topics_by_ids_and_user_id(&self, topic_ids: &Vec<Id>, user_id: Id) -> (r: Vec<
        Topic,
    >)
        ensures
            topic_views(r@) == owned_topics_among(self@.topics, topic_ids@, user_id),
    {
        let ghost pred = owned_in_pred(topic_ids@, user_id);
        let mut out: Vec<Topic> = Vec::new();
        let n = self.topics.len();
        let mut i: usize = 0;
        proof {
            lemma_filter_empty::<crate::model::TopicView>(pred);
            assert(self@.topics.take(0) =~= Seq::<crate::model::TopicView>::empty());
        }
        while i < n
            invariant
                n == self.topics@.len(),
                i <= n,
                topic_views(out@) == self@.topics.take(i as int).filter(pred),
                pred == owned_in_pred(topic_ids@, user_id),
            decreases n - i,
        {
            let hit = self.topics[i].user_id == user_id && contains_id(
                topic_ids,
                self.topics[i].topic_id,
            );
            proof {
                lemma_filter_take_step(self@.topics, i as int, pred);
                assert(hit == pred(self@.topics[i as int]));
            }
            if hit {
                let ghost old_out = out@;
                let row = self.topics[i].clone();
                out.push(row);
                proof {
                    assert(topic_views(out@) =~= topic_views(old_out).push(
                        self@.topics[i as int],
                    ));
                }
            }
            i += 1;
        }
        proof {
            assert(self@.topics.take(n as int) =~= self@.topics);
        }
        out
    }

    /// Insert-or-ignore the (message, topic) filing row.
    pub fn create_message_topic(&mut self, message_id: Id, topic_id: Id, now: i64)
        requires
            old(self).next_id < u128::MAX,
        ensures
            final(self)@ == file_message_topic(old(self)@, message_id, topic_id, now),
    {
        let n = self.message_topics.len();
        let mut i: usize = 0;
        while i < n
            invariant
                n == self.message_topics@.len(),
                i <= n,
                forall|k: int|
                    0 <= k < i ==> !(self@.message_topics[k].message_id == message_id
                        && self@.message_topics[k].topic_id == topic_id),
            decreases n - i,
        {
            if self.message_topics[i].message_id == message_id && self.message_topics[i].topic_id
                == topic_id {
                proof {
                    assert(has_message_topic(self@.message_topics, message_id, topic_id));
                }
                return ;
            }
            i += 1;
        }
        let row = MessageTopic {
            message_topic_id: self.next_id,
            message_id,
            topic_id,
            created_at: now,
            updated_at: now,
        };
        self.next_id = self.next_id + 1;
        self.message_topics.push(row);
        proof {
            assert(!has_message_topic(old(self)@.message_topics, message_id, topic_id));
            assert(self@ =~= file_message_topic(old(self)@, message_id, topic_id, now));
        }
    }

    /// Whether the user subscribes to the topic.
    pub fn has_topic_subscription(&self, topic_id: Id, user_id: Id) -> (r: bool)
        ensures
            r == has_subscription(self@.topic_users, topic_id, user_id),
    {
        let n = self.topic_users.len();
        let mut i: usize = 0;
        while i < n
            invariant
                n == self.topic_users@.len(),
                i <= n,
                forall|k: int|
                    0 <= k < i ==> !(self@.topic_users[k].topic_id == topic_id
                        && self@.topic_users[k].user_id == user_id),
            decreases n - i,
        {
            if self.topic_users[i].topic_id == topic_id && self.topic_users[i].user_id == user_id {
                proof {
                    assert(has_subscription(self@.topic_users, topic_id, user_id));
                }
                return true;
            }
            i += 1;
        }
        false
    }

    /// Read the topics the user subscribes to, in table order.
    pub fn get_topics_by_user_id(&self, user_id: Id) -> (r: Vec<Topic>)
        ensures
            topic_views(r@) == subscribed_topics(self@.topics, self@.topic_users, user_id),
    {
        let ghost pred = subscribed_pred(self@.topic_users, user_id);
        let mut out: Vec<Topic> = Vec::new();
        let n = self.topics.len();
        let mut i: usize = 0;
        proof {
            lemma_filter_empty::<crate::model::TopicView>(pred);
            assert(self@.topics.take(0) =~= Seq::<crate::model::TopicView>::empty());
        }
        while i < n
            invariant
                n == self.topics@.len(),
                i <= n,
                topic_views(out@) == self@.topics.take(i as int).filter(pred),
                pred == subscribed_pred(self@.topic_users, user_id),
            decreases n - i,
        {
            let hit = self.has_topic_subscription(self.topics[i].topic_id, user_id);
            proof {
                lemma_filter_take_step(self@.topics, i as int, pred);
                assert(hit == pred(self@.topics[i as int]));
            }
            if hit {
                let ghost old_out = out@;
                let row = self.topics[i].clone();
                out.push(row);
                proof {
                    assert(topic_views(out@) =~= topic_views(old_out).push(
                        self@.topics[i as int],
                    ));
                }
            }
            i += 1;
        }
        proof {
            assert(self@.topics.take(n as int) =~= self@.topics);
        }
        out
    }

    /// Whether the message is filed under one of the listed topics.
    fn message_filed_among(&self, message_id: Id, topic_ids: &Vec<Id>) -> (r: bool)
        ensures
            r == (exists|k: int|
                0 <= k < self@.message_topics.len() && self@.message_topics[k].message_id
                    == message_id && topic_ids@.contains(self@.message_topics[k].topic_id)),
    {
        let n = self.message_topics.len();
        let mut i: usize = 0;
        while i < n
            invariant
                n == self.message_topics@.len(),
                i <= n,
                forall|k: int|
                    0 <= k < i ==> !(self@.message_topics[k].message_id == message_id
                        && topic_ids@.contains(self@.message_topics[k].topic_id)),
            decreases n - i,
        {
            if self.message_topics[i].message_id == message_id && contains_id(
                topic_ids,
                self.message_topics[i].topic_id,
            ) {
                proof {
                    assert(self@.message_topics[i as int].message_id == message_id
                        && topic_ids@.contains(self@.message_topics[i as int].topic_id));
                }
                return true;
            }
            i += 1;
        }
        false
    }

    /// Read the messages filed under one of the listed topics, in table
    /// order — oldest first, since the table is ordered by creation.
    pub fn get_messages_by_topic_ids(&self, topic_ids: &Vec<Id>) -> (r: Vec<Message>)
        ensures
            message_views(r@) == messages_in_topics(
                self@.messages,
                self@.message_topics,
                topic_ids@,
            ),
    {
        let ghost pred = msg_in_topics_pred(self@.message_topics, topic_ids@);
        let mut out: Vec<Message> = Vec::new();
        let n = self.messages.len();
        let mut i: usize = 0;
        proof {
            lemma_filter_empty::<MessageView>(pred);
            assert(self@.messages.take(0) =~= Seq::<MessageView>::empty());
        }
        while i < n
            invariant
                n == self.messages@.len(),
                i <= n,
                message_views(out@) == self@.messages.take(i as int).filter(pred),
                pred == msg_in_topics_pred(self@.message_topics, topic_ids@),
            decreases n - i,
        {
            let hit = self.message_filed_among(self.messages[i].message_id, topic_ids);
            proof {
                lemma_filter_take_step(self@.messages, i as int, pred);
                assert(hit == pred(self@.messages[i as int]));
            }
            if hit {
                let ghost old_out = out@;
                let row = self.messages[i].clone();
                out.push(row);
                proof {
                    assert(message_views(out@) =~= message_views(old_out).push(
                        self@.messages[i as int],
                    ));
                }
            }
            i += 1;
        }
        proof {
            assert(self@.messages.take(n as int) =~= self@.messages);
        }
        out
    }

    /// Insert a new topic row; its id is freshly allocated.
    pub fn create_topic(&mut self, user_id: Id, title: String, now: i64) -> (t: Topic)
        requires
            old(self).next_id < u128::MAX,
        ensures
            final(self)@ == app_topic(old(self)@, user_id, title@, now).0,
            t@ == app_topic(old(self)@, user_id, title@, now).1,
    {
        let topic_id = self.next_id;
        self.next_id = self.next_id + 1;
        let t = Topic { topic_id, user_id, title, created_at: now, updated_at: now };
        let row = t.clone();
        self.topics.push(row);
        proof {
            assert(topic_views(self.topics@) =~= topic_views(old(self).topics@).push(t@));
            assert(self@ =~= app_topic(old(self)@, user_id, t@.title, now).0);
        }
        t
    }

    /// Read one topic row by primary key.
    pub fn get_topic_by_id(&self, topic_id: Id) -> (r: Option<Topic>)
        requires
            self.wf(),
        ensures
            match r {
                Some(t) => has_topic(self@.topics, topic_id) && t@ == topic_with_id(
                    self@.topics,
                    topic_id,
                ),
                None => !has_topic(self@.topics, topic_id),
            },
    {
        let n = self.topics.len();
        let mut i: usize = 0;
        while i < n
            invariant
                self.wf(),
                n == self.topics@.len(),
                i <= n,
                forall|k: int| 0 <= k < i ==> self@.topics[k].topic_id != topic_id,
            decreases n - i,
        {
            if self.topics[i].topic_id == topic_id {
                let t = self.topics[i].clone();
                proof {
                    assert(self@.topics[i as int].topic_id == topic_id);
                    assert(has_topic(self@.topics, topic_id));
                    let j = choose|j: int|
                        0 <= j < self@.topics.len() && self@.topics[j].topic_id == topic_id;
                    if j < i as int {
                        assert(self@.topics[j].topic_id < self@.topics[i as int].topic_id);
                    }
                    if j > i as int {
                        assert(self@.topics[i as int].topic_id < self@.topics[j].topic_id);
                    }
                    assert(j == i as int);
                }
                return Some(t);
            }
            i += 1;
        }
        None
    }

    /// Read the subset of the listed topics that exist, in table order.
    pub fn get_topics_by_ids(&self, topic_ids: &Vec<Id>) -> (r: Vec<Topic>)
        ensures
            topic_views(r@) == topics_by_ids(self@.topics, topic_ids@),
    {
        let ghost pred = topic_in_ids_pred(topic_ids@);
        let mut out: Vec<Topic> = Vec::new();
        let n = self.topics.len();
        let mut i: usize = 0;
        proof {
            lemma_filter_empty::<TopicView>(pred);
            assert(self@.topics.take(0) =~= Seq::<TopicView>::empty());
        }
        while i < n
            invariant
                n == self.topics@.len(),
                i <= n,
                topic_views(out@) == self@.topics.take(i as int).filter(pred),
                pred == topic_in_ids_pred(topic_ids@),
            decreases n - i,
        {
            let hit = contains_id(topic_ids, self.topics[i].topic_id);
            proof {
                lemma_filter_take_step(self@.topics, i as int, pred);
                assert(hit == pred(self@.topics[i as int]));
            }
            if hit {
                let ghost old_out = out@;
                let row = self.topics[i].clone();
                out.push(row);
                proof {
                    assert(topic_views(out@) =~= topic_views(old_out).push(
                        self@.topics[i as int],
                    ));
                }
            }
            i += 1;
        }
        proof {
            assert(self@.topics.take(n as int) =~= self@.topics);
        }
        out
    }

    /// Read the topics owned by one of the listed users, in table order.
    pub fn get_topics_by_user_ids(&self, user_ids: &Vec<Id>) -> (r: Vec<Topic>)
        ensures
            topic_views(r@) == topics_of_users(self@.topics, user_ids@),
    {
        let ghost pred = topic_of_users_pred(user_ids@);
        let mut out: Vec<Topic> = Vec::new();
        let n = self.topics.len();
        let mut i: usize = 0;
        proof {
            lemma_filter_empty::<TopicView>(pred);
            assert(self@.topics.take(0) =~= Seq::<TopicView>::empty());
        }
        while i < n
            invariant
                n == self.topics@.len(),
                i <= n,
                topic_views(out@) == self@.topics.take(i as int).filter(pred),
                pred == topic_of_users_pred(user_ids@),
            decreases n - i,
        {
            let hit = contains_id(user_ids, self.topics[i].user_id);
            proof {
                lemma_filter_take_step(self@.topics, i as int, pred);
                assert(hit == pred(self@.topics[i as int]));
            }
            if hit {
                let ghost old_out = out@;
                let row = self.topics[i].clone();
                out.push(row);
                proof {
                    assert(topic_views(out@) =~= topic_views(old_out).push(
                        self@.topics[i as int],
                    ));
                }
            }
            i += 1;
        }
        proof {
            assert(self@.topics.take(n as int) =~= self@.topics);
        }
        out
    }

    /// Read this user's subscription rows among the listed topics, in table
    /// order.
    pub fn get_topics_users_by_ids_and_user_id(&self, topic_ids: &Vec<Id>, user_id: Id) -> (r:
        Vec<TopicUser>)
        ensures
            r@ == subscriptions_among(self@.topic_users, topic_ids@, user_id),
    {
        let ghost pred = subscription_among_pred(topic_ids@, user_id);
        let mut out: Vec<TopicUser> = Vec::new();
        let n = self.topic_users.len();
        let mut i: usize = 0;
        proof {
            lemma_filter_empty::<TopicUser>(pred);
            assert(self@.topic_users.take(0) =~= Seq::<TopicUser>::empty());
        }
        while i < n
            invariant
                n == self.topic_users@.len(),
                i <= n,
                out@ == self@.topic_users.take(i as int).filter(pred),
                pred == subscription_among_pred(topic_ids@, user_id),
            decreases n - i,
        {
            let hit = contains_id(topic_ids, self.topic_users[i].topic_id)
                && self.topic_users[i].user_id == user_id;
            proof {
                lemma_filter_take_step(self@.topic_users, i as int, pred);
                assert(hit == pred(self@.topic_users[i as int]));
            }
            if hit {
                out.push(self.topic_users[i]);
            }
            i += 1;
        }
        proof {
            assert(self@.topic_users.take(n as int) =~= self@.topic_users);
        }
        out
    }

    /// Read one subscription row by primary key.
    pub fn get_topic_user_by_id(&self, topic_user_id: Id) -> (r: Option<TopicUser>)
        requires
            self.wf(),
        ensures
            match r {
                Some(tu) => has_topic_user(self@.topic_users, topic_user_id) && tu
                    == topic_user_with_id(self@.topic_users, topic_user_id),
                None => !has_topic_user(self@.topic_users, topic_user_id),
            },
    {
        let n = self.topic_users.len();
        let mut i: usize = 0;
        while i < n
            invariant
                self.wf(),
                n == self.topic_users@.len(),
                i <= n,
                forall|k: int| 0 <= k < i ==> self@.topic_users[k].topic_user_id != topic_user_id,
            decreases n - i,
        {
            if self.topic_users[i].topic_user_id == topic_user_id {
                proof {
                    assert(self@.topic_users[i as int].topic_user_id == topic_user_id);
                    assert(has_topic_user(self@.topic_users, topic_user_id));
                    let j = choose|j: int|
                        0 <= j < self@.topic_users.len() && self@.topic_users[j].topic_user_id
                            == topic_user_id;
                    if j < i as int {
                        assert(self@.topic_users[j].topic_user_id
                            < self@.topic_users[i as int].topic_user_id);
                    }
                    if j > i as int {
                        assert(self@.topic_users[i as int].topic_user_id
                            < self@.topic_users[j].topic_user_id);
                    }
                    assert(j == i as int);
                }
                return Some(self.topic_users[i]);
            }
            i += 1;
        }
        None
    }

    /// Upsert the subscription keyed by (topic, user): insert-or-ignore on
    /// the pair's unique constraint, then read the row by that key. Creating
    /// the same subscription twice yields the same row.
    pub fn create_topic_user(&mut self, user_id: Id, topic_id: Id, now: i64) -> (tu: TopicUser)
        requires
            old(self).wf(),
            old(self).next_id < u128::MAX,
        ensures
            final(self)@ == upsert_topic_user(old(self)@, user_id, topic_id, now).0,
            tu == upsert_topic_user(old(self)@, user_id, topic_id, now).1,
    {
        let n = self.topic_users.len();
        let mut i: usize = 0;
        while i < n
            invariant
                self.wf(),
                n == self.topic_users@.len(),
                i <= n,
                forall|k: int|
                    0 <= k < i ==> !(self@.topic_users[k].topic_id == topic_id
                        && self@.topic_users[k].user_id == user_id),
            decreases n - i,
        {
            if self.topic_users[i].topic_id == topic_id && self.topic_users[i].user_id == user_id {
                proof {
                    assert(has_subscription(self@.topic_users, topic_id, user_id));
                    let j = choose|j: int|
                        0 <= j < self@.topic_users.len() && self@.topic_users[j].topic_id
                            == topic_id && self@.topic_users[j].user_id == user_id;
                    if j < i as int {
                        assert(!(self@.topic_users[j].topic_id
                            == self@.topic_users[i as int].topic_id && self@.topic_users[j].user_id
                            == self@.topic_users[i as int].user_id));
                    }
                    if j > i as int {
                        assert(!(self@.topic_users[i as int].topic_id
                            == self@.topic_users[j].topic_id && self@.topic_users[i as int].user_id
                            == self@.topic_users[j].user_id));
                    }
                    assert(j == i as int);
                }
                return self.topic_users[i];
            }
            i += 1;
        }
        let tu = TopicUser {
            topic_user_id: self.next_id,
            user_id,
            topic_id,
            rate: Rate::Q,
            timing: Timing::Instant,
            created_at: now,
            updated_at: now,
        };
        self.next_id = self.next_id + 1;
        self.topic_users.push(tu);
        proof {
            assert(!has_subscription(old(self)@.topic_users, topic_id, user_id));
            assert(self@ =~= upsert_topic_user(old(self)@, user_id, topic_id, now).0);
        }
        tu
    }

    /// Rewrite the delivery preferences of the subscription with this id;
    /// every other row is untouched.
    pub fn update_topic_user(&mut self, topic_user_id: Id, rate: Rate, timing: Timing, now: i64)
        requires
            old(self).wf(),
        ensures
            final(self)@ == set_topic_user(old(self)@, topic_user_id, rate, timing, now),
    {
        let n = self.topic_users.len();
        let mut i: usize = 0;
        while i < n
            invariant
                self.wf(),
                self@ == old(self)@,
                n == self.topic_users@.len(),
                i <= n,
                forall|k: int| 0 <= k < i ==> self@.topic_users[k].topic_user_id != topic_user_id,
            decreases n - i,
        {
            if self.topic_users[i].topic_user_id == topic_user_id {
                let row = TopicUser {
                    rate,
                    timing,
                    updated_at: now,
                    ..self.topic_users[i]
                };
                self.topic_users.set(i, row);
                proof {
                    let tus = old(self)@.topic_users;
                    assert forall|k: int| 0 <= k < tus.len() && k != i as int implies
                        tus[k].topic_user_id != topic_user_id by {
                        if k < i as int {
                            assert(tus[k].topic_user_id < tus[i as int].topic_user_id);
                        }
                        if k > i as int {
                            assert(tus[i as int].topic_user_id < tus[k].topic_user_id);
                        }
                    }
                    assert(self@.topic_users =~= set_topic_user(
                        old(self)@,
                        topic_user_id,
                        rate,
                        timing,
                        now,
                    ).topic_users);
                    assert(self@ =~= set_topic_user(old(self)@, topic_user_id, rate, timing, now));
                }
                return ;
            }
            i += 1;
        }
        proof {
            assert(self@.topic_users =~= set_topic_user(
                old(self)@,
                topic_user_id,
                rate,
                timing,
                now,
            ).topic_users);
            assert(self@ =~= set_topic_user(old(self)@, topic_user_id, rate, timing, now));
        }
    }

    /// Delete the subscription row with this id; every other row survives in
    /// order.
    pub fn delete_topic_user(&mut self, topic_user_id: Id)
        requires
            old(self).wf(),
        ensures
            final(self)@ == remove_topic_user(old(self)@, topic_user_id),
    {
        let n = self.topic_users.len();
        let mut i: usize = 0;
        while i < n
            invariant
                self.wf(),
                self@ == old(self)@,
                n == self.topic_users@.len(),
                i <= n,
                forall|k: int| 0 <= k < i ==> self@.topic_users[k].topic_user_id != topic_user_id,
            decreases n - i,
        {
            if self.topic_users[i].topic_user_id == topic_user_id {
                proof {
                    assert(self@.topic_users[i as int].topic_user_id == topic_user_id);
                    assert(has_topic_user(self@.topic_users, topic_user_id));
                    let j = choose|j: int|
                        0 <= j < self@.topic_users.len() && self@.topic_users[j].topic_user_id
                            == topic_user_id;
                    if j < i as int {
                        assert(self@.topic_users[j].topic_user_id
                            < self@.topic_users[i as int].topic_user_id);
                    }
                    if j > i as int {
                        assert(self@.topic_users[i as int].topic_user_id
                            < self@.topic_users[j].topic_user_id);
                    }
                    assert(j == i as int);
                }
                self.topic_users.remove(i);
                proof {
                    assert(self@ =~= remove_topic_user(old(self)@, topic_user_id));
                }
                return ;
            }
            i += 1;
        }
        proof {
            assert(!has_topic_user(self@.topic_users, topic_user_id));
        }
    }

    /// Read the topics a message is filed under, in table order.
    pub fn get_topics_by_message_id(&self, message_id: Id) -> (r: Vec<Topic>)
        ensures
            topic_views(r@) == topics_of_message(
                self@.topics,
                self@.message_topics,
                message_id,
            ),
    {
        let ghost pred = topic_of_message_pred(self@.message_topics, message_id);
        let mut out: Vec<Topic> = Vec::new();
        let n = self.topics.len();
        let mut i: usize = 0;
        proof {
            lemma_filter_empty::<TopicView>(pred);
            assert(self@.topics.take(0) =~= Seq::<TopicView>::empty());
        }
        while i < n
            invariant
                n == self.topics@.len(),
                i <= n,
                topic_views(out@) == self@.topics.take(i as int).filter(pred),
                pred == topic_of_message_pred(self@.message_topics, message_id),
            decreases n - i,
        {
            let hit = self.has_message_topic_row(message_id, self.topics[i].topic_id);
            proof {
                lemma_filter_take_step(self@.topics, i as int, pred);
                assert(hit == pred(self@.topics[i as int]));
            }
            if hit {
                let ghost old_out = out@;
                let row = self.topics[i].clone();
                out.push(row);
                proof {
                    assert(topic_views(out@) =~= topic_views(old_out).push(
                        self@.topics[i as int],
                    ));
                }
            }
            i += 1;
        }
        proof {
            assert(self@.topics.take(n as int) =~= self@.topics);
        }
        out
    }

    /// Whether the (message, topic) filing row exists.
    pub fn has_message_topic_row(&self, message_id: Id, topic_id: Id) -> (r: bool)
        ensures
            r == has_message_topic(self@.message_topics, message_id, topic_id),
    {
        let n = self.message_topics.len();
        let mut i: usize = 0;
        while i < n
            invariant
                n == self.message_topics@.len(),
                i <= n,
                forall|k: int|
                    0 <= k < i ==> !(self@.message_topics[k].message_id == message_id
                        && self@.message_topics[k].topic_id == topic_id),
            decreases n - i,
        {
            if self.message_topics[i].message_id == message_id && self.message_topics[i].topic_id
                == topic_id {
                proof {
                    assert(has_message_topic(self@.message_topics, message_id, topic_id));
                }
                return true;
            }
            i += 1;
        }
        false
    }

    /// Read the stream rooted at this message, if any.
    pub fn get_stream_by_root_message_id(&self, root_message_id: Id) -> (r: Option<Stream>)
        requires
            self.wf(),
        ensures
            match r {
                Some(st) => has_stream_for_root(self@.streams, root_message_id) && st@
                    == stream_for_root(self@.streams, root_message_id),
                None => !has_stream_for_root(self@.streams, root_message_id),
            },
    {
        let n = self.streams.len();
        let mut i: usize = 0;
        while i < n
            invariant
                self.wf(),
                n == self.streams@.len(),
                i <= n,
                forall|k: int| 0 <= k < i ==> self@.streams[k].message_id != root_message_id,
            decreases n - i,
        {
            if self.streams[i].message_id == root_message_id {
                let st = self.streams[i].clone();
                proof {
                    assert(self@.streams[i as int].message_id == root_message_id);
                    assert(has_stream_for_root(self@.streams, root_message_id));
                    let j = choose|j: int|
                        0 <= j < self@.streams.len() && self@.streams[j].message_id
                            == root_message_id;
                    if j < i as int {
                        assert(self@.streams[j].message_id != self@.streams[i as int].message_id);
                    }
                    if j > i as int {
                        assert(self@.streams[i as int].message_id != self@.streams[j].message_id);
                    }
                    assert(j == i as int);
                }
                return Some(st);
            }
            i += 1;
        }
        None
    }

    /// Whether the (message, stream) link row exists.
    pub fn has_message_stream_row(&self, message_id: Id, stream_id: Id) -> (r: bool)
        ensures
            r == has_message_stream(self@.message_streams, message_id, stream_id),
    {
        let n = self.message_streams.len();
        let mut i: usize = 0;
        while i < n
            invariant
                n == self.message_streams@.len(),
                i <= n,
                forall|k: int|
                    0 <= k < i ==> !(self@.message_streams[k].message_id == message_id
                        && self@.message_streams[k].stream_id == stream_id),
            decreases n - i,
        {
            if self.message_streams[i].message_id == message_id && self.message_streams[i].stream_id
                == stream_id {
                proof {
                    assert(has_message_stream(self@.message_streams, message_id, stream_id));
                }
                return true;
            }
            i += 1;
        }
        false
    }

    /// Read the messages linked to this stream — the flattened thread, root
    /// included — in table order, oldest first.
    pub fn get_messages_by_stream_id(&self, stream_id: Id) -> (r: Vec<Message>)
        ensures
            message_views(r@) == stream_messages(
                self@.messages,
                self@.message_streams,
                stream_id,
            ),
    {
        let ghost pred = msg_in_stream_pred(self@.message_streams, stream_id);
        let mut out: Vec<Message> = Vec::new();
        let n = self.messages.len();
        let mut i: usize = 0;
        proof {
            lemma_filter_empty::<MessageView>(pred);
            assert(self@.messages.take(0) =~= Seq::<MessageView>::empty());
        }
        while i < n
            invariant
                n == self.messages@.len(),
                i <= n,
                message_views(out@) == self@.messages.take(i as int).filter(pred),
                pred == msg_in_stream_pred(self@.message_streams, stream_id),
            decreases n - i,
        {
            let hit = self.has_message_stream_row(self.messages[i].message_id, stream_id);
            proof {
                lemma_filter_take_step(self@.messages, i as int, pred);
                assert(hit == pred(self@.messages[i as int]));
            }
            if hit {
                let ghost old_out = out@;
                let row = self.messages[i].clone();
                out.push(row);
                proof {
                    assert(message_views(out@) =~= message_views(old_out).push(
                        self@.messages[i as int],
                    ));
                }
            }
            i += 1;
        }
        proof {
            assert(self@.messages.take(n as int) =~= self@.messages);
        }
        out
    }

    /// The post-commit counter step: add one to the stream's message count
    /// (stopping at the machine limit). Applied outside the creating
    /// transaction; losing it leaves the count behind the true membership,
    /// which is the documented drift of this cache.
    pub fn increment_stream_messages_count(&mut self, stream_id: Id, now: i64)
        requires
            old(self).wf(),
        ensures
            final(self).wf(),
            final(self)@ == bump_stream_count(old(self)@, stream_id, now),
    {
        proof {
            crate::store::lemma_bump_stream_count_wf(old(self)@, stream_id, now);
        }
        let n = self.streams.len();
        let mut i: usize = 0;
        while i < n
            invariant
                self.wf(),
                self@ == old(self)@,
                n == self.streams@.len(),
                i <= n,
                forall|k: int| 0 <= k < i ==> self@.streams[k].stream_id != stream_id,
            decreases n - i,
        {
            if self.streams[i].stream_id == stream_id {
                let count = self.streams[i].messages_count;
                let row = Stream {
                    messages_count: if count == i64::MAX {
                        count
                    } else {
                        count + 1
                    },
                    updated_at: now,
                    text: self.streams[i].text.clone(),
                    stream_id: self.streams[i].stream_id,
                    message_id: self.streams[i].message_id,
                    created_at: self.streams[i].created_at,
                };
                self.streams.set(i, row);
                proof {
                    let ss = old(self)@.streams;
                    assert forall|k: int| 0 <= k < ss.len() && k != i as int implies ss[k].stream_id
                        != stream_id by {
                        if k < i as int {
                            assert(ss[k].stream_id < ss[i as int].stream_id);
                        }
                        if k > i as int {
                            assert(ss[i as int].stream_id < ss[k].stream_id);
                        }
                    }
                    assert(self@.streams =~= bump_stream_count(old(self)@, stream_id, now).streams);
                    assert(self@ =~= bump_stream_count(old(self)@, stream_id, now));
                }
                return ;
            }
            i += 1;
        }
        proof {
            assert(self@.streams =~= bump_stream_count(old(self)@, stream_id, now).streams);
            assert(self@ =~= bump_stream_count(old(self)@, stream_id, now));
        }
    }

}

} // verus!
