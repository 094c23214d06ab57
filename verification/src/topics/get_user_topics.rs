//! The request and response shapes of reading a user's own topics.

use vstd::prelude::*;

use crate::model::{Id, Topic};

verus! {

/// A request for the topics a user owns.
pub struct Request {
    pub user_id: Id,
}

/// The topics the user owns, oldest first.
pub struct Response {
    pub topics: Vec<Topic>,
}

} // verus!
