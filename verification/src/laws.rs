//! The laws of the domain, proved of the service transitions.
//!
//! Each lemma here states a guarantee that spans an operation or several:
//! what a successful reply leaves behind, how concurrent duplicate replies
//! converge, that subscribing twice is subscribing once, and that a foreign
//! delete is refused. They are proved of the same spec functions the
//! services' contracts use, so they hold of every execution.

use vstd::prelude::*;

use crate::current_user::CurrentUser;
use crate::error::AppError;
use crate::messages::create_message::TypeView;
use crate::messages::service::create_message_spec;
use crate::model::{Id, MessageView, StreamView, TopicUser};
use crate::store::{
    StoreView, app_message, has_message_stream, has_stream_for_root, has_stream_user,
    has_topic_user, join_stream_user, lemma_app_message_wf, lemma_join_stream_user_wf,
    lemma_link_message_stream_wf, lemma_message_at_index, lemma_stream_at_index,
    lemma_upsert_stream_wf, lemma_upsert_topic_user_wf, link_message_stream, message_with_id,
    owned_topics_among, stream_for_root, topic_user_with_id, upsert_stream,
};
use crate::topics::service::{create_topic_user_spec, delete_topic_user_spec};

verus! {

/// Law: after every successful reply to `parent_id`, exactly one stream is
/// rooted at `parent_id` — the returned one — the parent and the new message
/// are linked to it, and both the parent's author and the reply's author are
/// members of it. Rows that existed before survive: links, memberships and
/// the messages table only grow.
pub proof fn lemma_reply_forms_single_stream(
    s: StoreView,
    cu: CurrentUser,
    text: Seq<char>,
    code: Seq<char>,
    parent_id: Id,
    now: i64,
    s2: StoreView,
    m: MessageView,
    st: StreamView,
)
    requires
        s.wf(),
        s.next_id + 6 <= u128::MAX,
        create_message_spec(s, Some(cu), text, code, TypeView::MessageId(parent_id), now)
            == Ok::<(StoreView, MessageView, Option<StreamView>), AppError>((s2, m, Some(st))),
    ensures
        s2.wf(),
        has_stream_for_root(s2.streams, parent_id),
        stream_for_root(s2.streams, parent_id) == st,
        st.message_id == parent_id,
        // exactly one: every stream row rooted at the parent is the returned one
        forall|i: int|
            0 <= i < s2.streams.len() && (#[trigger] s2.streams[i]).message_id == parent_id
                ==> s2.streams[i] == st,
        has_message_stream(s2.message_streams, parent_id, st.stream_id),
        has_message_stream(s2.message_streams, m.message_id, st.stream_id),
        has_stream_user(s2.stream_users, st.stream_id, cu.user_id),
        has_stream_user(
            s2.stream_users,
            st.stream_id,
            message_with_id(s.messages, parent_id).user_id,
        ),
        // prior rows survive
        s2.messages == s.messages.push(m),
        forall|a: Id, b: Id|
            has_message_stream(s.message_streams, a, b) ==> has_message_stream(
                s2.message_streams,
                a,
                b,
            ),
        forall|a: Id, b: Id|
            has_stream_user(s.stream_users, a, b) ==> has_stream_user(s2.stream_users, a, b),
{
    let parent = message_with_id(s.messages, parent_id);
    let pa = app_message(s, cu.user_id, text, code, now);
    let sa = pa.0;
    lemma_app_message_wf(s, cu.user_id, text, code, now);
    let pb = upsert_stream(sa, parent.message_id, parent.text, now);
    let sb = pb.0;
    lemma_upsert_stream_wf(sa, parent.message_id, parent.text, now);
    let sc = link_message_stream(sb, parent.message_id, st.stream_id, now);
    lemma_link_message_stream_wf(sb, parent.message_id, st.stream_id, now);
    let sd = link_message_stream(sc, m.message_id, st.stream_id, now);
    lemma_link_message_stream_wf(sc, m.message_id, st.stream_id, now);
    let se = join_stream_user(sd, st.stream_id, cu.user_id, now);
    lemma_join_stream_user_wf(sd, st.stream_id, cu.user_id, now);
    lemma_join_stream_user_wf(se, st.stream_id, parent.user_id, now);
    assert(s2.streams == sb.streams);
    let k = choose|k: int|
        0 <= k < sb.streams.len() && sb.streams[k].message_id == parent.message_id;
    lemma_stream_at_index(s2.streams, parent_id, k);
    assert forall|i: int|
        0 <= i < s2.streams.len() && (#[trigger] s2.streams[i]).message_id == parent_id implies s2
        .streams[i] == st by {
        lemma_stream_at_index(s2.streams, parent_id, i);
    }
}

/// Law: two replies to the same parent — the serialization of two concurrent
/// callers, in either order — converge on exactly one stream row for that
/// root. Both replies are linked to it and all distinct authors, the
/// parent's included, are members of it (idempotent convergence).
pub proof fn lemma_concurrent_replies_converge(
    s: StoreView,
    cu1: CurrentUser,
    text1: Seq<char>,
    code1: Seq<char>,
    now1: i64,
    cu2: CurrentUser,
    text2: Seq<char>,
    code2: Seq<char>,
    now2: i64,
    parent_id: Id,
    s1: StoreView,
    m1: MessageView,
    st1: StreamView,
    s2: StoreView,
    m2: MessageView,
    st2: StreamView,
)
    requires
        s.wf(),
        s.next_id + 12 <= u128::MAX,
        create_message_spec(s, Some(cu1), text1, code1, TypeView::MessageId(parent_id), now1)
            == Ok::<(StoreView, MessageView, Option<StreamView>), AppError>((s1, m1, Some(st1))),
        create_message_spec(s1, Some(cu2), text2, code2, TypeView::MessageId(parent_id), now2)
            == Ok::<(StoreView, MessageView, Option<StreamView>), AppError>((s2, m2, Some(st2))),
    ensures
        // the second reply reuses the first one's stream
        st2 == st1,
        s2.wf(),
        // exactly one stream row for that root
        forall|i: int|
            0 <= i < s2.streams.len() && (#[trigger] s2.streams[i]).message_id == parent_id
                ==> s2.streams[i] == st1,
        // both replies are recorded in it
        has_message_stream(s2.message_streams, m1.message_id, st1.stream_id),
        has_message_stream(s2.message_streams, m2.message_id, st1.stream_id),
        // all authors are members
        has_stream_user(s2.stream_users, st1.stream_id, cu1.user_id),
        has_stream_user(s2.stream_users, st1.stream_id, cu2.user_id),
        has_stream_user(
            s2.stream_users,
            st1.stream_id,
            message_with_id(s.messages, parent_id).user_id,
        ),
{
    lemma_reply_forms_single_stream(s, cu1, text1, code1, parent_id, now1, s1, m1, st1);
    // the parent row reads the same in the grown table
    let k = choose|k: int| 0 <= k < s.messages.len() && s.messages[k].message_id == parent_id;
    lemma_message_at_index(s1.messages, parent_id, k);
    assert(message_with_id(s1.messages, parent_id) == message_with_id(s.messages, parent_id));
    lemma_reply_forms_single_stream(s1, cu2, text2, code2, parent_id, now2, s2, m2, st2);
    // the second upsert found the first stream
    assert(st2 == st1) by {
        let parent = message_with_id(s1.messages, parent_id);
        let pa = app_message(s1, cu2.user_id, text2, code2, now2);
        assert(pa.0.streams == s1.streams);
        assert(has_stream_for_root(pa.0.streams, parent_id));
        assert(stream_for_root(pa.0.streams, parent_id) == stream_for_root(
            s1.streams,
            parent_id,
        ));
    }
}

/// Law: subscribing to a topic twice yields the same subscription row both
/// times, and the second call changes nothing — no duplicate row.
pub proof fn lemma_subscription_idempotent(
    s: StoreView,
    cu: CurrentUser,
    topic_id: Id,
    now1: i64,
    now2: i64,
    s1: StoreView,
    tu1: TopicUser,
    s2: StoreView,
    tu2: TopicUser,
)
    requires
        s.wf(),
        s.next_id < u128::MAX,
        create_topic_user_spec(s, Some(cu), topic_id, now1) == Ok::<
            (StoreView, TopicUser),
            AppError,
        >((s1, tu1)),
        create_topic_user_spec(s1, Some(cu), topic_id, now2) == Ok::<
            (StoreView, TopicUser),
            AppError,
        >((s2, tu2)),
    ensures
        tu2 == tu1,
        s2 == s1,
{
    lemma_upsert_topic_user_wf(s, cu.user_id, topic_id, now1);
}

/// Law: a caller who does not own a subscription cannot delete it — the
/// operation fails with `Forbidden`. Together with the service contract
/// (every error leaves the store exactly as it was), the row stays intact.
pub proof fn lemma_delete_foreign_subscription_forbidden(
    s: StoreView,
    cu: CurrentUser,
    topic_user_id: Id,
)
    requires
        has_topic_user(s.topic_users, topic_user_id),
        topic_user_with_id(s.topic_users, topic_user_id).user_id != cu.user_id,
    ensures
        delete_topic_user_spec(s, Some(cu), topic_user_id) == Err::<
            (StoreView, TopicUser),
            AppError,
        >(AppError::Forbidden),
{
}


/// Law: a topic post listing any topic the caller does not own — or listing
/// a topic twice — fails with `Conflict`. Together with the service contract
/// (every error leaves the store exactly as it was), nothing is created: no
/// message row and no filing rows.
pub proof fn lemma_partial_ownership_conflict(
    s: StoreView,
    cu: CurrentUser,
    text: Seq<char>,
    code: Seq<char>,
    topic_ids: Seq<Id>,
    now: i64,
)
    requires
        text.len() >= 2,
        code.len() >= 2,
        topic_ids.len() > 0,
        owned_topics_among(s.topics, topic_ids, cu.user_id).len() != topic_ids.len(),
    ensures
        create_message_spec(s, Some(cu), text, code, TypeView::TopicIds(topic_ids), now) == Err::<
            (StoreView, MessageView, Option<StreamView>),
            AppError,
        >(AppError::Conflict),
{
}

/// Law: a message whose text or code is shorter than two characters fails
/// with `Validation`, whatever its target. Together with the service
/// contract (every error leaves the store exactly as it was), the failure
/// happens before any write.
pub proof fn lemma_short_input_validation(
    s: StoreView,
    cu: CurrentUser,
    text: Seq<char>,
    code: Seq<char>,
    tp: TypeView,
    now: i64,
)
    requires
        text.len() < 2 || code.len() < 2,
    ensures
        create_message_spec(s, Some(cu), text, code, tp, now) == Err::<
            (StoreView, MessageView, Option<StreamView>),
            AppError,
        >(AppError::Validation),
{
}

} // verus!
