use bzd_messages::AppError;
use bzd_messages::current_user::CurrentUser;
use bzd_messages::model::{Id, Rate, Timing};
use bzd_messages::store::Store;
use bzd_messages::topics::service::{
    create_topic, create_topic_user, delete_topic_user, get_topic, get_topics, get_topics_users,
    get_user_topics, update_topic_user,
};
use bzd_messages::topics::{
    create_topic as create_topic_shapes, create_topic_user as create_topic_user_shapes,
    delete_topic_user as delete_topic_user_shapes, get_topic as get_topic_shapes,
    get_topics as get_topics_shapes, get_topics_users as get_topics_users_shapes,
    get_user_topics as get_user_topics_shapes, update_topic_user as update_topic_user_shapes,
};

fn caller(user_id: Id) -> Option<CurrentUser> {
    Some(CurrentUser { user_id })
}

fn own_topic(store: &mut Store, user_id: Id, title: &str, now: i64) -> Id {
    create_topic(
        store,
        create_topic_shapes::Request {
            user_id,
            title: title.to_string(),
        },
        now,
    )
    .unwrap()
    .topic
    .topic_id
}

fn subscribe(store: &mut Store, user_id: Id, topic_id: Id, now: i64) -> Id {
    create_topic_user(
        store,
        create_topic_user_shapes::Request {
            current_user: caller(user_id),
            topic_id,
        },
        now,
    )
    .unwrap()
    .topic_user
    .topic_user_id
}

#[test]
fn create_topic_rejects_short_title() {
    let mut store = Store::new();
    let r = create_topic(
        &mut store,
        create_topic_shapes::Request {
            user_id: 100,
            title: "x".to_string(),
        },
        1,
    );
    assert!(matches!(r, Err(AppError::Validation)));
    assert!(store.topics.is_empty());
}

#[test]
fn create_and_read_topics() {
    let mut store = Store::new();
    let alice = 100;
    let t1 = own_topic(&mut store, alice, "rust", 1);
    let t2 = own_topic(&mut store, alice, "jazz", 2);

    let one = get_topic(&store, get_topic_shapes::Request { topic_id: t2 }).unwrap();
    assert_eq!(one.topic.title, "jazz");
    assert_eq!(one.topic.user_id, alice);

    let missing = get_topic(&store, get_topic_shapes::Request { topic_id: 777 });
    assert!(matches!(missing, Err(AppError::NotFound)));

    let some = get_topics(
        &store,
        get_topics_shapes::Request {
            topic_ids: vec![t2, 777, t1],
        },
    );
    let ids: Vec<Id> = some.topics.iter().map(|t| t.topic_id).collect();
    assert_eq!(ids, vec![t1, t2]);
}

#[test]
fn get_user_topics_lists_owned_topics_only() {
    let mut store = Store::new();
    let alice = 100;
    let bob = 200;
    let t1 = own_topic(&mut store, alice, "rust", 1);
    let _t2 = own_topic(&mut store, bob, "jazz", 2);
    let t3 = own_topic(&mut store, alice, "chess", 3);

    let res = get_user_topics(&store, get_user_topics_shapes::Request { user_id: alice });
    let ids: Vec<Id> = res.topics.iter().map(|t| t.topic_id).collect();
    assert_eq!(ids, vec![t1, t3]);
}

#[test]
fn create_subscription_twice_returns_the_same_row() {
    let mut store = Store::new();
    let alice = 100;
    let bob = 200;
    let t1 = own_topic(&mut store, alice, "rust", 1);

    let first = subscribe(&mut store, bob, t1, 2);
    let second = subscribe(&mut store, bob, t1, 3);

    assert_eq!(first, second);
    assert_eq!(store.topic_users.len(), 1);
    // defaults of a fresh subscription
    assert_eq!(store.topic_users[0].rate, Rate::Q);
    assert_eq!(store.topic_users[0].timing, Timing::Instant);
}

#[test]
fn create_subscription_requires_caller_and_topic() {
    let mut store = Store::new();
    let alice = 100;
    let t1 = own_topic(&mut store, alice, "rust", 1);

    let anonymous = create_topic_user(
        &mut store,
        create_topic_user_shapes::Request {
            current_user: None,
            topic_id: t1,
        },
        2,
    );
    assert!(matches!(anonymous, Err(AppError::Forbidden)));

    let missing = create_topic_user(
        &mut store,
        create_topic_user_shapes::Request {
            current_user: caller(alice),
            topic_id: 999,
        },
        3,
    );
    assert!(matches!(missing, Err(AppError::NotFound)));
    assert!(store.topic_users.is_empty());
}

#[test]
fn get_topics_users_is_empty_without_a_caller() {
    let mut store = Store::new();
    let alice = 100;
    let bob = 200;
    let t1 = own_topic(&mut store, alice, "rust", 1);
    subscribe(&mut store, bob, t1, 2);

    let none = get_topics_users(
        &store,
        get_topics_users_shapes::Request {
            topic_ids: vec![t1],
            user_id: None,
        },
    );
    assert!(none.topics_users.is_empty());

    let some = get_topics_users(
        &store,
        get_topics_users_shapes::Request {
            topic_ids: vec![t1],
            user_id: Some(bob),
        },
    );
    assert_eq!(some.topics_users.len(), 1);
    assert_eq!(some.topics_users[0].topic_id, t1);
    assert_eq!(some.topics_users[0].user_id, bob);
}

#[test]
fn update_subscription_rewrites_preferences_of_owner_only() {
    let mut store = Store::new();
    let alice = 100;
    let bob = 200;
    let t1 = own_topic(&mut store, alice, "rust", 1);
    let sub = subscribe(&mut store, bob, t1, 2);

    let foreign = update_topic_user(
        &mut store,
        update_topic_user_shapes::Request {
            current_user: caller(alice),
            topic_user_id: sub,
            rate: Rate::Qw,
            timing: Timing::Weekends,
        },
        3,
    );
    assert!(matches!(foreign, Err(AppError::Forbidden)));
    assert_eq!(store.topic_users[0].rate, Rate::Q);

    update_topic_user(
        &mut store,
        update_topic_user_shapes::Request {
            current_user: caller(bob),
            topic_user_id: sub,
            rate: Rate::Qd,
            timing: Timing::Weekdays,
        },
        4,
    )
    .unwrap();
    assert_eq!(store.topic_users[0].rate, Rate::Qd);
    assert_eq!(store.topic_users[0].timing, Timing::Weekdays);
    assert_eq!(store.topic_users[0].updated_at, 4);
}

#[test]
fn delete_subscription_by_non_owner_fails_and_leaves_the_row() {
    let mut store = Store::new();
    let alice = 100;
    let bob = 200;
    let t1 = own_topic(&mut store, alice, "rust", 1);
    let sub = subscribe(&mut store, bob, t1, 2);

    let r = delete_topic_user(
        &mut store,
        delete_topic_user_shapes::Request {
            current_user: caller(alice),
            topic_user_id: sub,
        },
    );
    assert!(matches!(r, Err(AppError::Forbidden)));
    // the row is intact
    assert_eq!(store.topic_users.len(), 1);
    assert_eq!(store.topic_users[0].topic_user_id, sub);
}

#[test]
fn delete_subscription_by_owner_removes_the_row_and_returns_it() {
    let mut store = Store::new();
    let alice = 100;
    let bob = 200;
    let t1 = own_topic(&mut store, alice, "rust", 1);
    let sub = subscribe(&mut store, bob, t1, 2);

    let r = delete_topic_user(
        &mut store,
        delete_topic_user_shapes::Request {
            current_user: caller(bob),
            topic_user_id: sub,
        },
    )
    .unwrap();
    assert_eq!(r.topic_user.topic_user_id, sub);
    assert_eq!(r.topic_user.user_id, bob);
    assert!(store.topic_users.is_empty());

    let again = delete_topic_user(
        &mut store,
        delete_topic_user_shapes::Request {
            current_user: caller(bob),
            topic_user_id: sub,
        },
    );
    assert!(matches!(again, Err(AppError::NotFound)));
}
