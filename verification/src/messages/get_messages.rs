//! The request and response shapes of reading a set of messages.

use vstd::prelude::*;

use crate::model::{Id, Message};

verus! {

/// A request for the listed messages; missing ids are no error.
pub struct Request {
    pub message_ids: Vec<Id>,
}

/// The subset of the listed messages that exist, oldest first.
pub struct Response {
    pub messages: Vec<Message>,
}

} // verus!
