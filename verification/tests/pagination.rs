use bzd_messages::current_user::CurrentUser;
use bzd_messages::messages::create_message::{Request, Type};
use bzd_messages::messages::service::{create_message, get_thread_messages, get_user_messages};
use bzd_messages::messages::settings::MessagesSettings;
use bzd_messages::messages::{
    get_thread_messages as thread_shapes, get_user_messages as feed_shapes,
};
use bzd_messages::model::Id;
use bzd_messages::store::Store;
use bzd_messages::topics::create_topic::Request as CreateTopicRequest;
use bzd_messages::topics::create_topic_user::Request as SubscribeRequest;
use bzd_messages::topics::service::{create_topic, create_topic_user};

fn caller(user_id: Id) -> Option<CurrentUser> {
    Some(CurrentUser { user_id })
}

fn own_topic(store: &mut Store, user_id: Id, title: &str, now: i64) -> Id {
    create_topic(
        store,
        CreateTopicRequest {
            user_id,
            title: title.to_string(),
        },
        now,
    )
    .unwrap()
    .topic
    .topic_id
}

fn post(store: &mut Store, user_id: Id, text: &str, topic_ids: Vec<Id>, now: i64) -> Id {
    create_message(
        store,
        Request {
            current_user: caller(user_id),
            text: text.to_string(),
            code: "code".to_string(),
            tp: Type::TopicIds(topic_ids),
        },
        now,
    )
    .unwrap()
    .message
    .message_id
}

fn reply(store: &mut Store, user_id: Id, parent: Id, text: &str, now: i64) -> Id {
    create_message(
        store,
        Request {
            current_user: caller(user_id),
            text: text.to_string(),
            code: "code".to_string(),
            tp: Type::MessageId(parent),
        },
        now,
    )
    .unwrap()
    .message
    .message_id
}

/// Five messages in one thread, walked backward two at a time: the pages are
/// disjoint, adjacent, ascending, and cover everything.
#[test]
fn thread_pages_walk_backward_without_gaps_or_overlaps() {
    let mut store = Store::new();
    let alice = 100;
    let t = own_topic(&mut store, alice, "rust", 1);
    let m1 = post(&mut store, alice, "root", vec![t], 2);
    let m2 = reply(&mut store, alice, m1, "reply one", 3);
    let m3 = reply(&mut store, alice, m1, "reply two", 4);
    let m4 = reply(&mut store, alice, m1, "reply three", 5);
    let m5 = reply(&mut store, alice, m1, "reply four", 6);
    assert!(m1 < m2 && m2 < m3 && m3 < m4 && m4 < m5);

    let page = |store: &Store, cursor: Option<Id>| {
        let res = get_thread_messages(
            store,
            thread_shapes::Request {
                message_id: m1,
                cursor_message_id: cursor,
                limit: 2,
            },
        )
        .unwrap();
        let ids: Vec<Id> = res.messages.iter().map(|m| m.message_id).collect();
        (ids, res.cursor_message.map(|m| m.message_id))
    };

    let (ids, cursor) = page(&store, None);
    assert_eq!(ids, vec![m4, m5]);
    assert_eq!(cursor, Some(m3));

    let (ids, cursor) = page(&store, cursor);
    assert_eq!(ids, vec![m2, m3]);
    assert_eq!(cursor, Some(m1));

    let (ids, cursor) = page(&store, cursor);
    assert_eq!(ids, vec![m1]);
    assert_eq!(cursor, None);
}

#[test]
fn thread_of_message_without_replies_is_a_single_page() {
    let mut store = Store::new();
    let alice = 100;
    let t = own_topic(&mut store, alice, "rust", 1);
    let m1 = post(&mut store, alice, "lonely", vec![t], 2);

    let res = get_thread_messages(
        &store,
        thread_shapes::Request {
            message_id: m1,
            cursor_message_id: None,
            limit: 2,
        },
    )
    .unwrap();
    let ids: Vec<Id> = res.messages.iter().map(|m| m.message_id).collect();
    assert_eq!(ids, vec![m1]);
    assert!(res.cursor_message.is_none());
}

#[test]
fn thread_page_larger_than_thread_has_no_cursor() {
    let mut store = Store::new();
    let alice = 100;
    let t = own_topic(&mut store, alice, "rust", 1);
    let m1 = post(&mut store, alice, "root", vec![t], 2);
    let m2 = reply(&mut store, alice, m1, "only reply", 3);

    let res = get_thread_messages(
        &store,
        thread_shapes::Request {
            message_id: m1,
            cursor_message_id: None,
            limit: 10,
        },
    )
    .unwrap();
    let ids: Vec<Id> = res.messages.iter().map(|m| m.message_id).collect();
    assert_eq!(ids, vec![m1, m2]);
    assert!(res.cursor_message.is_none());
}

#[test]
fn feed_covers_subscribed_topics_and_paginates() {
    let mut store = Store::new();
    let alice = 100;
    let bob = 200;
    let t1 = own_topic(&mut store, alice, "rust", 1);
    let t2 = own_topic(&mut store, alice, "jazz", 2);
    let t3 = own_topic(&mut store, alice, "chess", 3);
    create_topic_user(
        &mut store,
        SubscribeRequest {
            current_user: caller(bob),
            topic_id: t1,
        },
        4,
    )
    .unwrap();
    create_topic_user(
        &mut store,
        SubscribeRequest {
            current_user: caller(bob),
            topic_id: t2,
        },
        5,
    )
    .unwrap();

    let a = post(&mut store, alice, "on rust", vec![t1], 6);
    let _off_feed = post(&mut store, alice, "on chess", vec![t3], 7);
    let b = post(&mut store, alice, "on jazz", vec![t2], 8);
    let c = post(&mut store, alice, "rust and jazz", vec![t1, t2], 9);

    let settings = MessagesSettings {
        user_messages_limit: 2,
        message_messages_limit: 2,
    };
    let res = get_user_messages(
        &store,
        feed_shapes::Request {
            user_id: bob,
            cursor_message_id: None,
        },
        &settings,
    );
    let ids: Vec<Id> = res.messages.iter().map(|m| m.message_id).collect();
    assert_eq!(ids, vec![b, c]);
    let cursor = res.cursor_message.map(|m| m.message_id);
    assert_eq!(cursor, Some(a));

    let res = get_user_messages(
        &store,
        feed_shapes::Request {
            user_id: bob,
            cursor_message_id: cursor,
        },
        &settings,
    );
    let ids: Vec<Id> = res.messages.iter().map(|m| m.message_id).collect();
    assert_eq!(ids, vec![a]);
    assert!(res.cursor_message.is_none());
}

#[test]
fn feed_of_a_user_with_no_subscriptions_is_empty() {
    let mut store = Store::new();
    let alice = 100;
    let t1 = own_topic(&mut store, alice, "rust", 1);
    post(&mut store, alice, "on rust", vec![t1], 2);

    let settings = MessagesSettings {
        user_messages_limit: 5,
        message_messages_limit: 5,
    };
    let res = get_user_messages(
        &store,
        feed_shapes::Request {
            user_id: 777,
            cursor_message_id: None,
        },
        &settings,
    );
    assert!(res.messages.is_empty());
    assert!(res.cursor_message.is_none());
}
