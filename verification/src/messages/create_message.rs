//! The request and response shapes of message creation.

use vstd::prelude::*;

use crate::current_user::CurrentUser;
use crate::model::{Id, Message, Stream, StreamView};

verus! {

/// The target of a new message: file it under topics the author owns (a
/// topic post), or extend the thread rooted at an existing message (a
/// reply).
pub enum Type {
    TopicIds(Vec<Id>),
    MessageId(Id),
}

/// The mathematical value of a [`Type`].
pub enum TypeView {
    TopicIds(Seq<Id>),
    MessageId(Id),
}

impl View for Type {
    type V = TypeView;

    open spec fn view(&self) -> TypeView {
        match self {
            Type::TopicIds(ids) => TypeView::TopicIds(ids@),
            Type::MessageId(message_id) => TypeView::MessageId(*message_id),
        }
    }
}

/// A request to create a message.
pub struct Request {
    /// The resolved caller, if any; an anonymous caller is rejected.
    pub current_user: Option<CurrentUser>,
    pub text: String,
    pub code: String,
    pub tp: Type,
}

/// The outcome of message creation: the new row and, on the reply path, the
/// stream that was created or reused — the row whose count the post-commit
/// step increments.
pub struct Response {
    pub message: Message,
    pub stream: Option<Stream>,
}

/// The view of the optional stream row of a [`Response`].
pub open spec fn stream_opt_view(st: Option<Stream>) -> Option<StreamView> {
    match st {
        Option::Some(st) => Option::Some(st@),
        Option::None => Option::None,
    }
}

} // verus!
