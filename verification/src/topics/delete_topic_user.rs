//! The request and response shapes of deleting a subscription.

use vstd::prelude::*;

use crate::current_user::CurrentUser;
use crate::model::{Id, TopicUser};

verus! {

/// A request to delete one subscription. Only the subscription's owner may
/// do so.
pub struct Request {
    /// The resolved caller, if any; an anonymous caller is rejected.
    pub current_user: Option<CurrentUser>,
    pub topic_user_id: Id,
}

/// The deleted row, from which the post-deletion event payload is built.
pub struct Response {
    pub topic_user: TopicUser,
}

} // verus!
