//! The request and response shapes of a paginated reply-thread read.

use vstd::prelude::*;

use crate::model::{Id, Message};

verus! {

/// A request for one page of the thread rooted at a message.
pub struct Request {
    pub message_id: Id,
    /// Resume reading at this message, inclusive; `None` starts at the
    /// newest.
    pub cursor_message_id: Option<Id>,
    /// The page size.
    pub limit: usize,
}

/// One page of the thread in ascending chronological order, and the row
/// whose id resumes the walk, if older rows remain. A message with no
/// stream yet is its own single-message page with no cursor.
pub struct Response {
    pub messages: Vec<Message>,
    pub cursor_message: Option<Message>,
}

} // verus!
