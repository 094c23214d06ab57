//! The message domain service: creation and the read paths, each one a
//! verified transition or query on the store.

use vstd::prelude::*;
use vstd::string::StrSliceExecFns;

use crate::error::AppError;
use crate::messages::create_message::{Request, Response, Type, TypeView, stream_opt_view};
use crate::messages::settings::MessagesSettings;
use crate::messages::{get_message, get_messages, get_thread_messages, get_user_messages};
use crate::model::{Id, Message, MessageView, StreamView, TopicView, message_views, topic_views};
use crate::pagination::{candidates, next_cursor_of, page_of, paginate};
use crate::store::{
    StoreView, Store, app_message, file_message_topic, file_message_topics, has_message,
    has_stream_for_root, join_stream_user, lemma_app_message_wf, lemma_file_message_topics_wf,
    lemma_join_stream_user_wf, lemma_link_message_stream_wf, lemma_upsert_stream_wf,
    link_message_stream, message_with_id, messages_by_ids, messages_in_topics,
    owned_topics_among, stream_for_root, stream_messages, subscribed_topics, upsert_stream,
};

verus! {

/// How many fresh ids a creation request can consume: one for the message,
/// plus one per filed topic, or at most five more on the reply path (the
/// stream, two links and two memberships).
pub open spec fn ids_needed(tp: TypeView) -> int {
    match tp {
        TypeView::TopicIds(ids) => 1 + ids.len() as int,
        TypeView::MessageId(_) => 6,
    }
}

/// The writes of the reply path, after the new message row: upsert the
/// stream rooted at the parent, link both the parent and the new message to
/// it, and record both authors as members — every step idempotent.
pub open spec fn reply_transition(
    s1: StoreView,
    parent: MessageView,
    m: MessageView,
    author: Id,
    now: i64,
) -> (StoreView, StreamView) {
    let (s2, st) = upsert_stream(s1, parent.message_id, parent.text, now);
    let s3 = link_message_stream(s2, parent.message_id, st.stream_id, now);
    let s4 = link_message_stream(s3, m.message_id, st.stream_id, now);
    let s5 = join_stream_user(s4, st.stream_id, author, now);
    let s6 = join_stream_user(s5, st.stream_id, parent.user_id, now);
    (s6, st)
}

/// What `create_message` does, as one transactional function of the store:
/// either the error the request deterministically earns — `Forbidden` for an
/// anonymous caller, `Validation` for short text or code or an empty topic
/// list, `Conflict` when the caller does not own every listed topic,
/// `NotFound` for a missing reply target — with the store untouched, or the
/// new store, the new message row, and on the reply path the stream that was
/// created or reused.
pub open spec fn create_message_spec(
    s: StoreView,
    current_user: Option<crate::current_user::CurrentUser>,
    text: Seq<char>,
    code: Seq<char>,
    tp: TypeView,
    now: i64,
) -> Result<(StoreView, MessageView, Option<StreamView>), AppError> {
    match current_user {
        Option::None => Err(AppError::Forbidden),
        Option::Some(cu) => {
            if text.len() < 2 || code.len() < 2 || (tp matches TypeView::TopicIds(ids)
                && ids.len() == 0) {
                Err(AppError::Validation)
            } else {
                match tp {
                    TypeView::TopicIds(ids) => {
                        if owned_topics_among(s.topics, ids, cu.user_id).len() != ids.len() {
                            Err(AppError::Conflict)
                        } else {
                            let (s1, m) = app_message(s, cu.user_id, text, code, now);
                            Ok((file_message_topics(s1, m.message_id, ids, now), m, None))
                        }
                    },
                    TypeView::MessageId(parent_id) => {
                        if !has_message(s.messages, parent_id) {
                            Err(AppError::NotFound)
                        } else {
                            let parent = message_with_id(s.messages, parent_id);
                            let (s1, m) = app_message(s, cu.user_id, text, code, now);
                            let (s6, st) = reply_transition(s1, parent, m, cu.user_id, now);
                            Ok((s6, m, Some(st)))
                        }
                    },
                }
            }
        },
    }
}

/// Create a message inside one transaction: validate, authorize, insert the
/// row, then file it under the caller's topics or extend the parent's
/// thread. On any error the store is exactly as before — no partial writes.
///
/// Post-commit steps are left to the caller, by design: incrementing the
/// touched stream's count (`Store::increment_stream_messages_count` on the
/// returned stream) and publishing the `message.created` event.
pub fn create_message(store: &mut Store, req: Request, now: i64) -> (r: Result<
    Response,
    AppError,
>)
    requires
        old(store).wf(),
        old(store)@.next_id + ids_needed(req.tp@) <= u128::MAX,
    ensures
        final(store).wf(),
        match r {
            Ok(resp) => match create_message_spec(
                old(store)@,
                req.current_user,
                req.text@,
                req.code@,
                req.tp@,
                now,
            ) {
                Ok(p) => final(store)@ == p.0 && resp.message@ == p.1 && stream_opt_view(
                    resp.stream,
                ) == p.2,
                Err(_) => false,
            },
            Err(e) => final(store)@ == old(store)@ && create_message_spec(
                old(store)@,
                req.current_user,
                req.text@,
                req.code@,
                req.tp@,
                now,
            ) == Err::<(StoreView, MessageView, Option<StreamView>), AppError>(e),
        },
{
    let ghost s0 = store@;
    let ghost tv = req.text@;
    let ghost cv = req.code@;
    let cu = match req.current_user {
        Option::Some(cu) => cu,
        Option::None => {
            return Err(AppError::Forbidden);
        },
    };
    if req.text.as_str().unicode_len() < 2 || req.code.as_str().unicode_len() < 2 {
        return Err(AppError::Validation);
    }
    match &req.tp {
        Type::TopicIds(ids) => {
            if ids.len() == 0 {
                return Err(AppError::Validation);
            }
        },
        Type::MessageId(_) => {},
    }
    match req.tp {
        Type::TopicIds(topic_ids) => {
            let topics = store.get_topics_by_ids_and_user_id(&topic_ids, cu.user_id);
            if topics.len() != topic_ids.len() {
                return Err(AppError::Conflict);
            }
            let message = store.create_message(cu.user_id, req.text, req.code, now);
            proof {
                lemma_app_message_wf(s0, cu.user_id, tv, cv, now);
            }
            let ghost s1 = store@;
            let ghost mid = message@.message_id;
            let n = topic_ids.len();
            let mut i: usize = 0;
            proof {
                assert(topic_ids@.skip(0) =~= topic_ids@);
            }
            while i < n
                invariant
                    n == topic_ids@.len(),
                    i <= n,
                    mid == message@.message_id,
                    store@.next_id + (n - i) <= u128::MAX,
                    file_message_topics(store@, mid, topic_ids@.skip(i as int), now)
                        == file_message_topics(s1, mid, topic_ids@, now),
                decreases n - i,
            {
                let ghost pre = store@;
                store.create_message_topic(message.message_id, topic_ids[i], now);
                proof {
                    let rest = topic_ids@.skip(i as int);
                    assert(rest.len() > 0);
                    assert(rest[0] == topic_ids@[i as int]);
                    assert(rest.skip(1) =~= topic_ids@.skip(i as int + 1));
                    assert(store@ == file_message_topic(pre, mid, rest[0], now));
                    assert(file_message_topics(pre, mid, rest, now) == file_message_topics(
                        file_message_topic(pre, mid, rest[0], now),
                        mid,
                        rest.skip(1),
                        now,
                    ));
                    assert(file_message_topics(store@, mid, topic_ids@.skip(i as int + 1), now)
                        == file_message_topics(s1, mid, topic_ids@, now));
                }
                i += 1;
            }
            proof {
                assert(topic_ids@.skip(n as int) =~= Seq::<Id>::empty());
                assert(file_message_topics(store@, mid, Seq::<Id>::empty(), now) == store@);
                lemma_file_message_topics_wf(s1, mid, topic_ids@, now);
            }
            Ok(Response { message, stream: None })
        },
        Type::MessageId(parent_id) => {
            let source = match store.get_message_by_id(parent_id) {
                Option::Some(m) => m,
                Option::None => {
                    return Err(AppError::NotFound);
                },
            };
            let ghost parent = message_with_id(s0.messages, parent_id);
            let message = store.create_message(cu.user_id, req.text, req.code, now);
            proof {
                lemma_app_message_wf(s0, cu.user_id, tv, cv, now);
            }
            let ghost s1 = store@;
            let stream = store.create_stream(parent_id, source.text.clone(), now);
            proof {
                lemma_upsert_stream_wf(s1, parent_id, parent.text, now);
            }
            let ghost s2 = store@;
            store.create_message_stream(source.message_id, stream.stream_id, now);
            proof {
                lemma_link_message_stream_wf(s2, parent.message_id, stream@.stream_id, now);
            }
            let ghost s3 = store@;
            store.create_message_stream(message.message_id, stream.stream_id, now);
            proof {
                lemma_link_message_stream_wf(s3, message@.message_id, stream@.stream_id, now);
            }
            let ghost s4 = store@;
            store.create_stream_user(stream.stream_id, cu.user_id, now);
            proof {
                lemma_join_stream_user_wf(s4, stream@.stream_id, cu.user_id, now);
            }
            let ghost s5 = store@;
            store.create_stream_user(stream.stream_id, source.user_id, now);
            proof {
                lemma_join_stream_user_wf(s5, stream@.stream_id, parent.user_id, now);
            }
            Ok(Response { message, stream: Some(stream) })
        },
    }
}

/// Read one message; `NotFound` when it is absent.
pub fn get_message(store: &Store, req: get_message::Request) -> (r: Result<
    get_message::Response,
    AppError,
>)
    requires
        store.wf(),
    ensures
        match r {
            Ok(resp) => has_message(store@.messages, req.message_id) && resp.message@
                == message_with_id(store@.messages, req.message_id),
            Err(e) => e == AppError::NotFound && !has_message(store@.messages, req.message_id),
        },
{
    match store.get_message_by_id(req.message_id) {
        Option::Some(message) => Ok(get_message::Response { message }),
        Option::None => Err(AppError::NotFound),
    }
}

/// Read the subset of the listed messages that exist; missing ids are no
/// error.
pub fn get_messages(store: &Store, req: get_messages::Request) -> (r: get_messages::Response)
    ensures
        message_views(r.messages@) == messages_by_ids(store@.messages, req.message_ids@),
{
    get_messages::Response { messages: store.get_messages_by_ids(&req.message_ids) }
}

/// The ids of the given topic rows, in order.
pub open spec fn topic_ids_of(ts: Seq<TopicView>) -> Seq<Id> {
    ts.map_values(|t: TopicView| t.topic_id)
}

/// A user's feed: the messages filed under any topic the user subscribes
/// to, oldest first.
pub open spec fn user_feed(s: StoreView, user_id: Id) -> Seq<MessageView> {
    messages_in_topics(
        s.messages,
        s.message_topics,
        topic_ids_of(subscribed_topics(s.topics, s.topic_users, user_id)),
    )
}

/// Read one page of a user's topic feed, newest rows first cut, returned in
/// ascending chronological order with the cursor row for the next page, if
/// any.
pub fn get_user_messages(
    store: &Store,
    req: get_user_messages::Request,
    settings: &MessagesSettings,
) -> (r: get_user_messages::Response)
    ensures
        ({
            let cand = candidates(user_feed(store@, req.user_id), req.cursor_message_id);
            let limit = settings.user_messages_limit as int;
            &&& message_views(r.messages@) == page_of(cand, limit)
            &&& match r.cursor_message {
                Option::Some(c) => next_cursor_of(cand, limit) == Option::Some(c@.message_id)
                    && c@ == cand[cand.len() - limit - 1],
                Option::None => next_cursor_of(cand, limit) is None,
            }
        }),
{
    let topics = store.get_topics_by_user_id(req.user_id);
    let mut ids: Vec<Id> = Vec::new();
    let n = topics.len();
    let mut i: usize = 0;
    proof {
        assert(ids@ =~= topic_ids_of(topic_views(topics@).take(0)));
    }
    while i < n
        invariant
            n == topics@.len(),
            i <= n,
            ids@ == topic_ids_of(topic_views(topics@).take(i as int)),
        decreases n - i,
    {
        let ghost old_ids = ids@;
        ids.push(topics[i].topic_id);
        proof {
            let tv = topic_views(topics@);
            assert(tv.take(i as int + 1) =~= tv.take(i as int).push(tv[i as int]));
            assert(topic_ids_of(tv.take(i as int).push(tv[i as int])) =~= topic_ids_of(
                tv.take(i as int),
            ).push(tv[i as int].topic_id));
            assert(ids@ =~= old_ids.push(tv[i as int].topic_id));
        }
        i += 1;
    }
    proof {
        assert(topic_views(topics@).take(n as int) =~= topic_views(topics@));
    }
    let messages = store.get_messages_by_topic_ids(&ids);
    let (messages, cursor_message) = paginate(
        messages,
        req.cursor_message_id,
        settings.user_messages_limit,
    );
    get_user_messages::Response { messages, cursor_message }
}

/// Read one page of the thread rooted at a message, per the cursor rules;
/// a message with no stream yet is its own single-message page with no
/// cursor. `NotFound` when the root message is absent.
pub fn get_thread_messages(store: &Store, req: get_thread_messages::Request) -> (r: Result<
    get_thread_messages::Response,
    AppError,
>)
    requires
        store.wf(),
    ensures
        match r {
            Ok(resp) => has_message(store@.messages, req.message_id) && (if has_stream_for_root(
                store@.streams,
                req.message_id,
            ) {
                let rows = stream_messages(
                    store@.messages,
                    store@.message_streams,
                    stream_for_root(store@.streams, req.message_id).stream_id,
                );
                let cand = candidates(rows, req.cursor_message_id);
                let limit = req.limit as int;
                &&& message_views(resp.messages@) == page_of(cand, limit)
                &&& match resp.cursor_message {
                    Option::Some(c) => next_cursor_of(cand, limit) == Option::Some(c@.message_id)
                        && c@ == cand[cand.len() - limit - 1],
                    Option::None => next_cursor_of(cand, limit) is None,
                }
            } else {
                &&& message_views(resp.messages@) == seq![
                    message_with_id(store@.messages, req.message_id),
                ]
                &&& resp.cursor_message is None
            }),
            Err(e) => e == AppError::NotFound && !has_message(store@.messages, req.message_id),
        },
{
    let message = match store.get_message_by_id(req.message_id) {
        Option::Some(m) => m,
        Option::None => {
            return Err(AppError::NotFound);
        },
    };
    match store.get_stream_by_root_message_id(req.message_id) {
        Option::Some(stream) => {
            let rows = store.get_messages_by_stream_id(stream.stream_id);
            let (messages, cursor_message) = paginate(rows, req.cursor_message_id, req.limit);
            Ok(get_thread_messages::Response { messages, cursor_message })
        },
        Option::None => {
            let mut messages: Vec<Message> = Vec::new();
            messages.push(message);
            proof {
                assert(message_views(messages@) =~= seq![
                    message_with_id(store@.messages, req.message_id),
                ]);
            }
            Ok(get_thread_messages::Response { messages, cursor_message: None })
        },
    }
}

} // verus!
