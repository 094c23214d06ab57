//! The request and response shapes of reading a set of topics.

use vstd::prelude::*;

use crate::model::{Id, Topic};

verus! {

/// A request for the listed topics; missing ids are no error.
pub struct Request {
    pub topic_ids: Vec<Id>,
}

/// The subset of the listed topics that exist, oldest first.
pub struct Response {
    pub topics: Vec<Topic>,
}

} // verus!
