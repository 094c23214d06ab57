//! The request and response shapes of a user's topic feed.

use vstd::prelude::*;

use crate::model::{Id, Message};

verus! {

/// A request for one page of the feed across all topics the user
/// subscribes to.
pub struct Request {
    pub user_id: Id,
    /// Resume reading at this message, inclusive; `None` starts at the
    /// newest.
    pub cursor_message_id: Option<Id>,
}

/// One page of the feed in ascending chronological order, and the row whose
/// id resumes the walk, if older rows remain.
pub struct Response {
    pub messages: Vec<Message>,
    pub cursor_message: Option<Message>,
}

} // verus!
