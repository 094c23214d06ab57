//! Read-path settings of the message service.

use vstd::prelude::*;

verus! {

/// Page sizes of the two paginated read paths.
pub struct MessagesSettings {
    /// Page size of a user's topic feed.
    pub user_messages_limit: usize,
    /// Page size of a reply-thread read.
    pub message_messages_limit: usize,
}

} // verus!
