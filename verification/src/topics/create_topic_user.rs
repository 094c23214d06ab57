//! The request and response shapes of subscribing to a topic.

use vstd::prelude::*;

use crate::current_user::CurrentUser;
use crate::model::{Id, TopicUser};

verus! {

/// A request to subscribe the caller to a topic.
pub struct Request {
    /// The resolved caller, if any; an anonymous caller is rejected.
    pub current_user: Option<CurrentUser>,
    pub topic_id: Id,
}

/// The subscription row — the existing one when the caller was already
/// subscribed.
pub struct Response {
    pub topic_user: TopicUser,
}

} // verus!
