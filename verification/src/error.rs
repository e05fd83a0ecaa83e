use vstd::prelude::*;

verus! {

/// The closed set of failures that the account pipeline reports. Every
/// failure is terminal for the current invocation and is returned as an
/// ordinary value; nothing is retried.
#[derive(Clone, Copy, Debug, PartialEq, Eq, Structural)]
pub enum AnchorError {
    /// The handle sequence was exhausted during decode.
    InsufficientAccounts,
    /// An account's owner did not match the required program at validate.
    InvalidAccountOwner,
    /// A discriminant tag was missing or mismatched, or payload bytes were
    /// malformed.
    InvalidAccountData,
    /// A writability assertion failed, or a dynamic borrow conflicted with an
    /// outstanding one.
    AccountBorrowFailed,
    /// A signer assertion failed.
    MissingRequiredSignature,
    /// A program-identity check failed.
    IncorrectProgramId,
    /// A derived address did not match the account's key.
    InvalidSeeds,
    /// A generic constraint predicate failed.
    InvalidArgument,
}

pub type AnchorResult<T> = Result<T, AnchorError>;

/// Optional caller-supplied hook that may substitute a domain-specific error
/// for the error a failing check proposes. The unit hook keeps the proposed
/// error; an `AnchorError` hook replaces it outright.
pub trait CustomErrorGenerator: Sized {
    spec fn generated(self, proposed: AnchorError) -> AnchorError;

    fn generate(self, proposed: AnchorError) -> (r: AnchorError)
        ensures
            r == self.generated(proposed),
    ;
}

impl CustomErrorGenerator for () {
    open spec fn generated(self, proposed: AnchorError) -> AnchorError {
        proposed
    }

    fn generate(self, proposed: AnchorError) -> (r: AnchorError) {
        proposed
    }
}

impl CustomErrorGenerator for AnchorError {
    open spec fn generated(self, proposed: AnchorError) -> AnchorError {
        self
    }

    fn generate(self, proposed: AnchorError) -> (r: AnchorError) {
        self
    }
}

} // verus!
