//! The request and response shapes of reading one topic.

use vstd::prelude::*;

use crate::model::{Id, Topic};

verus! {

/// A request for one topic by id.
pub struct Request {
    pub topic_id: Id,
}

/// The topic row.
pub struct Response {
    pub topic: Topic,
}

} // verus!
