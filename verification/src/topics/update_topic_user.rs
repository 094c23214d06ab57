//! The request shape of changing a subscription's delivery preferences.

use vstd::prelude::*;

use crate::current_user::CurrentUser;
use crate::model::{Id, Rate, Timing};

verus! {

/// A request to rewrite the delivery preferences of one subscription. Only
/// the subscription's owner may do so.
pub struct Request {
    /// The resolved caller, if any; an anonymous caller is rejected.
    pub current_user: Option<CurrentUser>,
    pub topic_user_id: Id,
    pub rate: Rate,
    pub timing: Timing,
}

} // verus!
