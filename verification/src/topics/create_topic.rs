//! The request and response shapes of topic creation.

use vstd::prelude::*;

use crate::model::{Id, Topic};

verus! {

/// A request to create a topic owned by the given user.
pub struct Request {
    pub user_id: Id,
    pub title: String,
}

/// The created topic row.
pub struct Response {
    pub topic: Topic,
}

} // verus!
