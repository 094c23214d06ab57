//! The topic domain service: topic creation and reads, and the
//! subscription lifecycle, each one a verified transition or query on the
//! store.
//!
//! The `topic-user.created` and `topic-user.deleted` events are published by
//! the caller after the operation returns, from the returned row — after the
//! commit, per the event publication boundary.

use vstd::prelude::*;
use vstd::string::StrSliceExecFns;

use crate::current_user::CurrentUser;
use crate::error::AppError;
use crate::model::{Id, Rate, Timing, Topic, TopicUser, TopicView, topic_views};
use crate::store::{
    Store, StoreView, app_topic, has_topic, has_topic_user, lemma_app_topic_wf,
    lemma_remove_topic_user_wf, lemma_set_topic_user_wf, lemma_upsert_topic_user_wf,
    remove_topic_user, set_topic_user, subscriptions_among, topic_user_with_id, topic_with_id,
    topics_by_ids, topics_of_users, upsert_topic_user,
};
use crate::topics::{
    create_topic, create_topic_user, delete_topic_user, get_topic, get_topics, get_topics_users,
    get_user_topics, update_topic_user,
};

verus! {

/// What `create_topic` does: `Validation` for a title shorter than two
/// characters, with the store untouched; otherwise the new topic row.
pub open spec fn create_topic_spec(s: StoreView, user_id: Id, title: Seq<char>, now: i64) -> Result<
    (StoreView, TopicView),
    AppError,
> {
    if title.len() < 2 {
        Err(AppError::Validation)
    } else {
        Ok(app_topic(s, user_id, title, now))
    }
}

/// Create a topic owned by the caller.
pub fn create_topic(store: &mut Store, req: create_topic::Request, now: i64) -> (r: Result<
    create_topic::Response,
    AppError,
>)
    requires
        old(store).wf(),
        old(store)@.next_id < u128::MAX,
    ensures
        final(store).wf(),
        match r {
            Ok(resp) => match create_topic_spec(old(store)@, req.user_id, req.title@, now) {
                Ok(p) => final(store)@ == p.0 && resp.topic@ == p.1,
                Err(_) => false,
            },
            Err(e) => final(store)@ == old(store)@ && create_topic_spec(
                old(store)@,
                req.user_id,
                req.title@,
                now,
            ) == Err::<(StoreView, TopicView), AppError>(e),
        },
{
    let ghost s0 = store@;
    if req.title.as_str().unicode_len() < 2 {
        return Err(AppError::Validation);
    }
    let topic = store.create_topic(req.user_id, req.title, now);
    proof {
        lemma_app_topic_wf(s0, req.user_id, topic@.title, now);
    }
    Ok(create_topic::Response { topic })
}

/// Read the subset of the listed topics that exist; missing ids are no
/// error.
pub fn get_topics(store: &Store, req: get_topics::Request) -> (r: get_topics::Response)
    ensures
        topic_views(r.topics@) == topics_by_ids(store@.topics, req.topic_ids@),
{
    get_topics::Response { topics: store.get_topics_by_ids(&req.topic_ids) }
}

/// Read one topic; `NotFound` when it is absent.
pub fn get_topic(store: &Store, req: get_topic::Request) -> (r: Result<
    get_topic::Response,
    AppError,
>)
    requires
        store.wf(),
    ensures
        match r {
            Ok(resp) => has_topic(store@.topics, req.topic_id) && resp.topic@ == topic_with_id(
                store@.topics,
                req.topic_id,
            ),
            Err(e) => e == AppError::NotFound && !has_topic(store@.topics, req.topic_id),
        },
{
    match store.get_topic_by_id(req.topic_id) {
        Option::Some(topic) => Ok(get_topic::Response { topic }),
        Option::None => Err(AppError::NotFound),
    }
}

/// Read the topics a user owns, oldest first.
pub fn get_user_topics(store: &Store, req: get_user_topics::Request) -> (r:
    get_user_topics::Response)
    ensures
        topic_views(r.topics@) == topics_of_users(store@.topics, seq![req.user_id]),
{
    let user_ids = vec![req.user_id];
    proof {
        assert(user_ids@ =~= seq![req.user_id]);
    }
    get_user_topics::Response { topics: store.get_topics_by_user_ids(&user_ids) }
}

/// Read the caller's subscriptions among the listed topics; with no
/// resolved caller the answer is empty, not an error.
pub fn get_topics_users(store: &Store, req: get_topics_users::Request) -> (r:
    get_topics_users::Response)
    ensures
        match req.user_id {
            Option::Some(u) => r.topics_users@ == subscriptions_among(
                store@.topic_users,
                req.topic_ids@,
                u,
            ),
            Option::None => r.topics_users@ == Seq::<TopicUser>::empty(),
        },
{
    match req.user_id {
        Option::Some(user_id) => get_topics_users::Response {
            topics_users: store.get_topics_users_by_ids_and_user_id(&req.topic_ids, user_id),
        },
        Option::None => {
            let topics_users: Vec<TopicUser> = Vec::new();
            get_topics_users::Response { topics_users }
        },
    }
}

/// What `create_topic_user` does: `Forbidden` for an anonymous caller and
/// `NotFound` for a missing topic, with the store untouched; otherwise the
/// upsert keyed by (topic, user) — asking twice yields the same row.
pub open spec fn create_topic_user_spec(
    s: StoreView,
    current_user: Option<CurrentUser>,
    topic_id: Id,
    now: i64,
) -> Result<(StoreView, TopicUser), AppError> {
    match current_user {
        Option::None => Err(AppError::Forbidden),
        Option::Some(cu) => {
            if !has_topic(s.topics, topic_id) {
                Err(AppError::NotFound)
            } else {
                Ok(upsert_topic_user(s, cu.user_id, topic_id, now))
            }
        },
    }
}

/// Subscribe the caller to a topic, idempotently.
pub fn create_topic_user(store: &mut Store, req: create_topic_user::Request, now: i64) -> (r:
    Result<create_topic_user::Response, AppError>)
    requires
        old(store).wf(),
        old(store)@.next_id < u128::MAX,
    ensures
        final(store).wf(),
        match r {
            Ok(resp) => match create_topic_user_spec(
                old(store)@,
                req.current_user,
                req.topic_id,
                now,
            ) {
                Ok(p) => final(store)@ == p.0 && resp.topic_user == p.1,
                Err(_) => false,
            },
            Err(e) => final(store)@ == old(store)@ && create_topic_user_spec(
                old(store)@,
                req.current_user,
                req.topic_id,
                now,
            ) == Err::<(StoreView, TopicUser), AppError>(e),
        },
{
    let ghost s0 = store@;
    let cu = match req.current_user {
        Option::Some(cu) => cu,
        Option::None => {
            return Err(AppError::Forbidden);
        },
    };
    if store.get_topic_by_id(req.topic_id).is_none() {
        return Err(AppError::NotFound);
    }
    let topic_user = store.create_topic_user(cu.user_id, req.topic_id, now);
    proof {
        lemma_upsert_topic_user_wf(s0, cu.user_id, req.topic_id, now);
    }
    Ok(create_topic_user::Response { topic_user })
}

/// What `update_topic_user` does: `Forbidden` for an anonymous caller,
/// `NotFound` for a missing subscription, `Forbidden` for a caller that does
/// not own it — each with the store untouched; otherwise the rewrite of that
/// row's delivery preferences.
pub open spec fn update_topic_user_spec(
    s: StoreView,
    current_user: Option<CurrentUser>,
    topic_user_id: Id,
    rate: Rate,
    timing: Timing,
    now: i64,
) -> Result<StoreView, AppError> {
    match current_user {
        Option::None => Err(AppError::Forbidden),
        Option::Some(cu) => {
            if !has_topic_user(s.topic_users, topic_user_id) {
                Err(AppError::NotFound)
            } else if topic_user_with_id(s.topic_users, topic_user_id).user_id != cu.user_id {
                Err(AppError::Forbidden)
            } else {
                Ok(set_topic_user(s, topic_user_id, rate, timing, now))
            }
        },
    }
}

/// Change the delivery preferences of the caller's own subscription.
pub fn update_topic_user(store: &mut Store, req: update_topic_user::Request, now: i64) -> (r:
    Result<(), AppError>)
    requires
        old(store).wf(),
    ensures
        final(store).wf(),
        match r {
            Ok(_) => match update_topic_user_spec(
                old(store)@,
                req.current_user,
                req.topic_user_id,
                req.rate,
                req.timing,
                now,
            ) {
                Ok(s2) => final(store)@ == s2,
                Err(_) => false,
            },
            Err(e) => final(store)@ == old(store)@ && update_topic_user_spec(
                old(store)@,
                req.current_user,
                req.topic_user_id,
                req.rate,
                req.timing,
                now,
            ) == Err::<StoreView, AppError>(e),
        },
{
    let ghost s0 = store@;
    let cu = match req.current_user {
        Option::Some(cu) => cu,
        Option::None => {
            return Err(AppError::Forbidden);
        },
    };
    let topic_user = match store.get_topic_user_by_id(req.topic_user_id) {
        Option::Some(tu) => tu,
        Option::None => {
            return Err(AppError::NotFound);
        },
    };
    match cu.check_access(topic_user.user_id) {
        Ok(_) => {},
        Err(e) => {
            return Err(e);
        },
    }
    store.update_topic_user(req.topic_user_id, req.rate, req.timing, now);
    proof {
        lemma_set_topic_user_wf(s0, req.topic_user_id, req.rate, req.timing, now);
    }
    Ok(())
}

/// What `delete_topic_user` does: `Forbidden` for an anonymous caller,
/// `NotFound` for a missing subscription, `Forbidden` for a caller that does
/// not own it — each with the store untouched, the row intact; otherwise the
/// store without that row, and the row itself for the post-deletion event.
pub open spec fn delete_topic_user_spec(
    s: StoreView,
    current_user: Option<CurrentUser>,
    topic_user_id: Id,
) -> Result<(StoreView, TopicUser), AppError> {
    match current_user {
        Option::None => Err(AppError::Forbidden),
        Option::Some(cu) => {
            if !has_topic_user(s.topic_users, topic_user_id) {
                Err(AppError::NotFound)
            } else if topic_user_with_id(s.topic_users, topic_user_id).user_id != cu.user_id {
                Err(AppError::Forbidden)
            } else {
                Ok((remove_topic_user(s, topic_user_id), topic_user_with_id(
                    s.topic_users,
                    topic_user_id,
                )))
            }
        },
    }
}

/// Delete the caller's own subscription; returns the removed row so the
/// caller can publish the post-deletion event from it.
pub fn delete_topic_user(store: &mut Store, req: delete_topic_user::Request) -> (r: Result<
    delete_topic_user::Response,
    AppError,
>)
    requires
        old(store).wf(),
    ensures
        final(store).wf(),
        match r {
            Ok(resp) => match delete_topic_user_spec(
                old(store)@,
                req.current_user,
                req.topic_user_id,
            ) {
                Ok(p) => final(store)@ == p.0 && resp.topic_user == p.1,
                Err(_) => false,
            },
            Err(e) => final(store)@ == old(store)@ && delete_topic_user_spec(
                old(store)@,
                req.current_user,
                req.topic_user_id,
            ) == Err::<(StoreView, TopicUser), AppError>(e),
        },
{
    let ghost s0 = store@;
    let cu = match req.current_user {
        Option::Some(cu) => cu,
        Option::None => {
            return Err(AppError::Forbidden);
        },
    };
    let topic_user = match store.get_topic_user_by_id(req.topic_user_id) {
        Option::Some(tu) => tu,
        Option::None => {
            return Err(AppError::NotFound);
        },
    };
    match cu.check_access(topic_user.user_id) {
        Ok(_) => {},
        Err(e) => {
            return Err(e);
        },
    }
    store.delete_topic_user(req.topic_user_id);
    proof {
        lemma_remove_topic_user_wf(s0, req.topic_user_id);
    }
    Ok(delete_topic_user::Response { topic_user })
}

} // verus!
