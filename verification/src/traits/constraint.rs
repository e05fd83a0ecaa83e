use vstd::prelude::*;

use crate::error::AnchorResult;
use crate::handle::AccountHandle;
use crate::traits::account::Accounts;
use crate::traits::AccountsContext;

verus! {

/// A self-contained predicate over an account, optionally produced through
/// a builder that makes every required field a compile-time obligation.
pub trait Constraint {
    type Builder;
}

/// A view opts into supporting a constraint by implementing its hooks for
/// up to three pipeline phases: early validation (before ownership and
/// discriminant checks), late validation (after), and cleanup (symmetric
/// teardown). A hook with no special behavior returns `Ok` and checks
/// nothing.
pub trait SupportsConstraint<C>: Accounts {
    /// The outcome of the early-validation hook.
    spec fn early_spec(&self, constraint: C, ctx: AccountsContext, bank: Seq<AccountHandle>) -> AnchorResult<()>;

    /// The outcome of the late-validation hook.
    spec fn late_spec(&self, constraint: C, ctx: AccountsContext, bank: Seq<AccountHandle>) -> AnchorResult<()>;

    /// The outcome of the cleanup hook.
    spec fn constraint_cleanup_spec(
        &self,
        constraint: C,
        ctx: AccountsContext,
        bank: Seq<AccountHandle>,
    ) -> AnchorResult<()>;

    fn early_validation(&self, constraint: &C, ctx: &AccountsContext, bank: &Vec<AccountHandle>) -> (r: AnchorResult<()>)
        requires
            self.wf(bank@.len() as int),
            ctx.wf(),
        ensures
            r == self.early_spec(*constraint, *ctx, bank@),
    ;

    fn late_validation(&self, constraint: &C, ctx: &AccountsContext, bank: &Vec<AccountHandle>) -> (r: AnchorResult<()>)
        requires
            self.wf(bank@.len() as int),
            ctx.wf(),
        ensures
            r == self.late_spec(*constraint, *ctx, bank@),
    ;

    fn cleanup(&self, constraint: &C, ctx: &AccountsContext, bank: &Vec<AccountHandle>) -> (r:
        AnchorResult<()>)
        requires
            self.wf(bank@.len() as int),
            ctx.wf(),
        ensures
            r == self.constraint_cleanup_spec(*constraint, *ctx, bank@),
    ;
}

} // verus!
