//! The identity context: resolving an optional caller identity and the
//! access-check primitive.

use vstd::prelude::*;

use crate::error::AppError;
use crate::model::Id;

verus! {

/// What `uuid::Uuid::parse_str` makes of a string: the uuid's 128-bit value
/// (big-endian, as `Uuid::as_u128` reads it), or nothing when the string is
/// not a uuid in one of the accepted formats.
pub uninterp spec fn parsed_uuid(s: Seq<char>) -> Option<u128>;

/// Relies on uuid::Uuid::parse_str and Uuid::as_u128: parsing accepts the
/// simple, hyphenated, urn and Microsoft GUID formats, rejects everything
/// else, and depends on the characters alone.
#[verifier::external_body]
fn parse_uuid(s: &str) -> (r: Option<u128>)
    ensures
        r == parsed_uuid(s@),
{
    uuid::Uuid::parse_str(s).ok().map(|u| u.as_u128())
}

/// The caller's resolved identity.
#[derive(Clone, Copy, Debug, PartialEq, Eq, Structural)]
pub struct CurrentUser {
    pub user_id: Id,
}

impl CurrentUser {
    /// Resolve an optional identity token. No token is an anonymous caller;
    /// a well-formed token resolves to that user; a malformed token is a
    /// validation error.
    pub fn new(current_user_id: &Option<String>) -> (r: Result<Option<CurrentUser>, AppError>)
        ensures
            match *current_user_id {
                Option::None => r == Ok::<Option<CurrentUser>, AppError>(None),
                Option::Some(tok) => match parsed_uuid(tok@) {
                    Option::Some(u) => r == Ok::<Option<CurrentUser>, AppError>(
                        Some((CurrentUser { user_id: u })),
                    ),
                    Option::None => r == Err::<Option<CurrentUser>, AppError>(
                        AppError::Validation,
                    ),
                },
            },
    {
        match current_user_id {
            Option::None => Ok(None),
            Option::Some(tok) => match parse_uuid(tok.as_str()) {
                Option::Some(u) => Ok(Some(CurrentUser { user_id: u })),
                Option::None => Err(AppError::Validation),
            },
        }
    }

    /// The access-check primitive: a pure function over the caller and the
    /// resource owner. Access is granted exactly to the owner.
    pub fn check_access(&self, user_id: Id) -> (r: Result<(), AppError>)
        ensures
            r is Ok <==> user_id == self.user_id,
            r is Err ==> r == Err::<(), AppError>(AppError::Forbidden),
    {
        if self.user_id == user_id {
            Ok(())
        } else {
            Err(AppError::Forbidden)
        }
    }
}

} // verus!
