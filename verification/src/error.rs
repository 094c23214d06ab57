//! The domain error taxonomy.

use vstd::prelude::*;

verus! {

/// Errors a domain operation can fail with.
///
/// `Validation`, `Forbidden`, `NotFound` and `Conflict` are deterministic
/// client errors, safe to retry with corrected input. `Infra` stands for a
/// persistence or bus failure and `Invariant` for a broken internal
/// expectation; neither is recoverable by the caller. All domain errors leave
/// the store unchanged.
#[derive(Clone, Copy, Debug, PartialEq, Eq, Structural)]
pub enum AppError {
    /// Malformed or out-of-policy input.
    Validation,
    /// No resolved identity, or an identity without access to the resource.
    Forbidden,
    /// A referenced entity is absent.
    NotFound,
    /// Referenced entities exist but violate a domain rule, such as partial
    /// topic ownership.
    Conflict,
    /// A persistence or bus failure.
    Infra,
    /// An internal expectation was broken; never caused by valid input.
    Invariant,
}

impl AppError {
    /// A stable code for logs and transport-level status mapping.
    pub fn code(&self) -> (r: &'static str)
        ensures
            r@ == self.code_spec(),
    {
        proof {
            reveal_strlit("VALIDATION");
            reveal_strlit("FORBIDDEN");
            reveal_strlit("NOT_FOUND");
            reveal_strlit("CONFLICT");
            reveal_strlit("INFRA");
            reveal_strlit("INVARIANT");
        }
        match self {
            AppError::Validation => "VALIDATION",
            AppError::Forbidden => "FORBIDDEN",
            AppError::NotFound => "NOT_FOUND",
            AppError::Conflict => "CONFLICT",
            AppError::Infra => "INFRA",
            AppError::Invariant => "INVARIANT",
        }
    }

    /// What `code` returns, as a sequence of characters.
    pub open spec fn code_spec(self) -> Seq<char> {
        match self {
            AppError::Validation => "VALIDATION"@,
            AppError::Forbidden => "FORBIDDEN"@,
            AppError::NotFound => "NOT_FOUND"@,
            AppError::Conflict => "CONFLICT"@,
            AppError::Infra => "INFRA"@,
            AppError::Invariant => "INVARIANT"@,
        }
    }
}

} // verus!
