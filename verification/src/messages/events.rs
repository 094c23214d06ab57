//! The `message.created` event payload.
//!
//! Events are published after the owning transaction has committed, from the
//! now-durable rows; the bus call itself happens outside this crate. A
//! publish failure after a successful commit leaves the system state changed
//! but not announced — the documented at-least-once gap of this design.

use vstd::prelude::*;

use crate::error::AppError;
use crate::model::{Id, Message, Topic, topic_views};
use crate::store::{Store, has_message, message_with_id, topics_of_message};

verus! {

/// What a `message.created` event carries: the message and the topics it
/// was filed under.
pub struct Payload {
    pub message: Message,
    pub topics: Vec<Topic>,
}

/// Build the `message.created` payload from the committed rows: the message
/// and the topics it is filed under. Fails with `NotFound` when the message
/// is absent.
pub fn message_created_payload(store: &Store, message_id: Id) -> (r: Result<Payload, AppError>)
    requires
        store.wf(),
    ensures
        match r {
            Ok(p) => has_message(store@.messages, message_id) && p.message@ == message_with_id(
                store@.messages,
                message_id,
            ) && topic_views(p.topics@) == topics_of_message(
                store@.topics,
                store@.message_topics,
                message_id,
            ),
            Err(e) => e == AppError::NotFound && !has_message(store@.messages, message_id),
        },
{
    let message = match store.get_message_by_id(message_id) {
        Option::Some(m) => m,
        Option::None => {
            return Err(AppError::NotFound);
        },
    };
    let topics = store.get_topics_by_message_id(message_id);
    Ok(Payload { message, topics })
}

} // verus!
