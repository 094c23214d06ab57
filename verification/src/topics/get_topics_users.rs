//! The request and response shapes of reading a caller's subscriptions.

use vstd::prelude::*;

use crate::model::{Id, TopicUser};

verus! {

/// A request for the caller's subscriptions among the listed topics. With
/// no resolved caller the answer is empty, not an error.
pub struct Request {
    pub topic_ids: Vec<Id>,
    pub user_id: Option<Id>,
}

/// The caller's subscription rows among the listed topics, oldest first.
pub struct Response {
    pub topics_users: Vec<TopicUser>,
}

} // verus!
