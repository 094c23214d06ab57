use bzd_messages::AppError;
use bzd_messages::current_user::CurrentUser;
use bzd_messages::messages::create_message::{Request, Type};
use bzd_messages::messages::service::{create_message, get_message, get_messages};
use bzd_messages::messages::{get_message as get_message_shapes, get_messages as get_messages_shapes};
use bzd_messages::messages::events::message_created_payload;
use bzd_messages::model::Id;
use bzd_messages::store::Store;
use bzd_messages::topics::create_topic::Request as CreateTopicRequest;
use bzd_messages::topics::service::create_topic;

fn caller(user_id: Id) -> Option<CurrentUser> {
    Some(CurrentUser { user_id })
}

fn own_topic(store: &mut Store, user_id: Id, title: &str, now: i64) -> Id {
    let res = create_topic(
        store,
        CreateTopicRequest {
            user_id,
            title: title.to_string(),
        },
        now,
    )
    .unwrap();
    res.topic.topic_id
}

fn post(store: &mut Store, user_id: Id, text: &str, topic_ids: Vec<Id>, now: i64) -> Id {
    let res = create_message(
        store,
        Request {
            current_user: caller(user_id),
            text: text.to_string(),
            code: "code".to_string(),
            tp: Type::TopicIds(topic_ids),
        },
        now,
    )
    .unwrap();
    res.message.message_id
}

#[test]
fn topic_post_files_message_under_topics() {
    let mut store = Store::new();
    let alice = 100;
    let t1 = own_topic(&mut store, alice, "rust", 1);
    let t2 = own_topic(&mut store, alice, "verification", 2);
    let m = post(&mut store, alice, "hello there", vec![t1, t2], 3);

    assert_eq!(store.messages.len(), 1);
    assert_eq!(store.message_topics.len(), 2);
    let payload = message_created_payload(&store, m).unwrap();
    assert_eq!(payload.message.message_id, m);
    let topic_ids: Vec<Id> = payload.topics.iter().map(|t| t.topic_id).collect();
    assert_eq!(topic_ids, vec![t1, t2]);
}

#[test]
fn anonymous_caller_is_forbidden() {
    let mut store = Store::new();
    let r = create_message(
        &mut store,
        Request {
            current_user: None,
            text: "hello".to_string(),
            code: "code".to_string(),
            tp: Type::TopicIds(vec![1]),
        },
        1,
    );
    assert!(matches!(r, Err(AppError::Forbidden)));
    assert!(store.messages.is_empty());
}

#[test]
fn short_text_fails_validation_before_any_write() {
    let mut store = Store::new();
    let alice = 100;
    let t1 = own_topic(&mut store, alice, "rust", 1);
    let r = create_message(
        &mut store,
        Request {
            current_user: caller(alice),
            text: "x".to_string(),
            code: "code".to_string(),
            tp: Type::TopicIds(vec![t1]),
        },
        2,
    );
    assert!(matches!(r, Err(AppError::Validation)));
    assert!(store.messages.is_empty());
    assert!(store.message_topics.is_empty());
}

#[test]
fn two_char_text_is_accepted() {
    let mut store = Store::new();
    let alice = 100;
    let t1 = own_topic(&mut store, alice, "rust", 1);
    let m = post(&mut store, alice, "hi", vec![t1], 2);
    assert_eq!(store.messages.len(), 1);
    assert_eq!(store.messages[0].message_id, m);
}

#[test]
fn short_code_fails_validation() {
    let mut store = Store::new();
    let alice = 100;
    let t1 = own_topic(&mut store, alice, "rust", 1);
    let r = create_message(
        &mut store,
        Request {
            current_user: caller(alice),
            text: "hello".to_string(),
            code: "c".to_string(),
            tp: Type::TopicIds(vec![t1]),
        },
        2,
    );
    assert!(matches!(r, Err(AppError::Validation)));
    assert!(store.messages.is_empty());
}

#[test]
fn empty_topic_list_fails_validation() {
    let mut store = Store::new();
    let alice = 100;
    let r = create_message(
        &mut store,
        Request {
            current_user: caller(alice),
            text: "hello".to_string(),
            code: "code".to_string(),
            tp: Type::TopicIds(vec![]),
        },
        1,
    );
    assert!(matches!(r, Err(AppError::Validation)));
    assert!(store.messages.is_empty());
}

#[test]
fn partial_topic_ownership_fails_with_conflict_and_no_partial_state() {
    let mut store = Store::new();
    let alice = 100;
    let bob = 200;
    let t1 = own_topic(&mut store, alice, "rust", 1);
    let t2 = own_topic(&mut store, bob, "jazz", 2);
    let r = create_message(
        &mut store,
        Request {
            current_user: caller(alice),
            text: "hello".to_string(),
            code: "code".to_string(),
            tp: Type::TopicIds(vec![t1, t2]),
        },
        3,
    );
    assert!(matches!(r, Err(AppError::Conflict)));
    // full rollback: no message row, no filing rows, so any read finds nothing
    assert!(store.messages.is_empty());
    assert!(store.message_topics.is_empty());
    let all_ids: Vec<Id> = (0..20).collect();
    let res = get_messages(
        &store,
        get_messages_shapes::Request {
            message_ids: all_ids,
        },
    );
    assert!(res.messages.is_empty());
}

#[test]
fn reply_to_missing_parent_fails_not_found() {
    let mut store = Store::new();
    let r = create_message(
        &mut store,
        Request {
            current_user: caller(100),
            text: "hello".to_string(),
            code: "code".to_string(),
            tp: Type::MessageId(999),
        },
        1,
    );
    assert!(matches!(r, Err(AppError::NotFound)));
    assert!(store.messages.is_empty());
    assert!(store.streams.is_empty());
}

#[test]
fn reply_forms_stream_with_both_authors() {
    let mut store = Store::new();
    let alice = 100;
    let bob = 200;
    let t1 = own_topic(&mut store, alice, "rust", 1);
    let root = post(&mut store, alice, "root post", vec![t1], 2);

    let res = create_message(
        &mut store,
        Request {
            current_user: caller(bob),
            text: "a reply".to_string(),
            code: "code".to_string(),
            tp: Type::MessageId(root),
        },
        3,
    )
    .unwrap();
    let stream = res.stream.expect("a reply touches a stream");

    // exactly one stream, rooted at the parent, preview text from the parent
    assert_eq!(store.streams.len(), 1);
    assert_eq!(store.streams[0].message_id, root);
    assert_eq!(store.streams[0].text, "root post");
    assert_eq!(store.streams[0].messages_count, 2);
    // both the parent and the reply are linked to it
    let linked: Vec<Id> = store
        .message_streams
        .iter()
        .filter(|ms| ms.stream_id == stream.stream_id)
        .map(|ms| ms.message_id)
        .collect();
    assert_eq!(linked, vec![root, res.message.message_id]);
    // both authors are members
    let members: Vec<Id> = store
        .stream_users
        .iter()
        .filter(|su| su.stream_id == stream.stream_id)
        .map(|su| su.user_id)
        .collect();
    assert_eq!(members, vec![bob, alice]);
}

#[test]
fn duplicate_replies_converge_on_one_stream() {
    let mut store = Store::new();
    let alice = 100;
    let bob = 200;
    let carol = 300;
    let t1 = own_topic(&mut store, alice, "rust", 1);
    let root = post(&mut store, alice, "root post", vec![t1], 2);

    for (user, text, now) in [(bob, "first reply", 3), (carol, "second reply", 4)] {
        create_message(
            &mut store,
            Request {
                current_user: caller(user),
                text: text.to_string(),
                code: "code".to_string(),
                tp: Type::MessageId(root),
            },
            now,
        )
        .unwrap();
    }

    // exactly one stream row for that root
    assert_eq!(store.streams.len(), 1);
    assert_eq!(store.streams[0].message_id, root);
    // both replies and the root are linked to it
    assert_eq!(store.message_streams.len(), 3);
    // all distinct authors are members
    let mut members: Vec<Id> = store.stream_users.iter().map(|su| su.user_id).collect();
    members.sort();
    assert_eq!(members, vec![alice, bob, carol]);
}

#[test]
fn replying_twice_adds_no_duplicate_membership() {
    let mut store = Store::new();
    let alice = 100;
    let bob = 200;
    let t1 = own_topic(&mut store, alice, "rust", 1);
    let root = post(&mut store, alice, "root post", vec![t1], 2);
    for now in [3, 4] {
        create_message(
            &mut store,
            Request {
                current_user: caller(bob),
                text: "another reply".to_string(),
                code: "code".to_string(),
                tp: Type::MessageId(root),
            },
            now,
        )
        .unwrap();
    }
    assert_eq!(store.streams.len(), 1);
    assert_eq!(store.stream_users.len(), 2);
}

#[test]
fn stream_count_is_incremented_by_the_post_commit_step() {
    let mut store = Store::new();
    let alice = 100;
    let bob = 200;
    let t1 = own_topic(&mut store, alice, "rust", 1);
    let root = post(&mut store, alice, "root post", vec![t1], 2);
    create_message(
        &mut store,
        Request {
            current_user: caller(bob),
            text: "first reply".to_string(),
            code: "code".to_string(),
            tp: Type::MessageId(root),
        },
        3,
    )
    .unwrap();
    let res = create_message(
        &mut store,
        Request {
            current_user: caller(bob),
            text: "second reply".to_string(),
            code: "code".to_string(),
            tp: Type::MessageId(root),
        },
        4,
    )
    .unwrap();
    let stream = res.stream.unwrap();
    // the transaction itself leaves the count alone...
    assert_eq!(store.streams[0].messages_count, 2);
    // ...and the post-commit step adds one per subsequent reply
    store.increment_stream_messages_count(stream.stream_id, 5);
    assert_eq!(store.streams[0].messages_count, 3);
    assert_eq!(store.streams[0].updated_at, 5);
}

#[test]
fn get_message_reads_one_row_or_not_found() {
    let mut store = Store::new();
    let alice = 100;
    let t1 = own_topic(&mut store, alice, "rust", 1);
    let m = post(&mut store, alice, "hello", vec![t1], 2);

    let found = get_message(&store, get_message_shapes::Request { message_id: m }).unwrap();
    assert_eq!(found.message.message_id, m);
    assert_eq!(found.message.text, "hello");
    assert_eq!(found.message.user_id, alice);

    let missing = get_message(&store, get_message_shapes::Request { message_id: 9999 });
    assert!(matches!(missing, Err(AppError::NotFound)));
}

#[test]
fn get_messages_returns_the_subset_found() {
    let mut store = Store::new();
    let alice = 100;
    let t1 = own_topic(&mut store, alice, "rust", 1);
    let m1 = post(&mut store, alice, "first", vec![t1], 2);
    let m2 = post(&mut store, alice, "second", vec![t1], 3);

    let res = get_messages(
        &store,
        get_messages_shapes::Request {
            message_ids: vec![m2, 424242, m1],
        },
    );
    let ids: Vec<Id> = res.messages.iter().map(|m| m.message_id).collect();
    // table order: oldest first, missing ids silently skipped
    assert_eq!(ids, vec![m1, m2]);
}

#[test]
fn error_codes_are_stable() {
    assert_eq!(AppError::Validation.code(), "VALIDATION");
    assert_eq!(AppError::Forbidden.code(), "FORBIDDEN");
    assert_eq!(AppError::NotFound.code(), "NOT_FOUND");
    assert_eq!(AppError::Conflict.code(), "CONFLICT");
    assert_eq!(AppError::Infra.code(), "INFRA");
    assert_eq!(AppError::Invariant.code(), "INVARIANT");
}
