//! The request and response shapes of reading one message.

use vstd::prelude::*;

use crate::model::{Id, Message};

verus! {

/// A request for one message by id.
pub struct Request {
    pub message_id: Id,
}

/// The message row.
pub struct Response {
    pub message: Message,
}

} // verus!
