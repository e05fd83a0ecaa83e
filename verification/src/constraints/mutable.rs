use vstd::prelude::*;

use crate::error::{AnchorError, AnchorResult};
use crate::handle::AccountHandle;
use crate::impls::account_info::AccountInfo;
use crate::traits::builder::{Builder, BuilderFinish, BuilderStart};
use crate::traits::constraint::{Constraint, SupportsConstraint};
use crate::traits::AccountsContext;

verus! {

/// Writability constraint: the account must be dynamically writable; a
/// mismatch fails with the borrow-conflict error in the late phase. It has
/// no required fields, so it is its own builder.
pub struct Mut;

impl Constraint for Mut {
    type Builder = Mut;
}

impl Builder for Mut {
    type Output = Mut;
}

impl BuilderStart for Mut {
    fn new() -> Self {
        Mut
    }
}

impl BuilderFinish for Mut {
    fn finish(self) -> Mut {
        self
    }
}

impl SupportsConstraint<Mut> for AccountInfo {
    open spec fn early_spec(
        &self,
        constraint: Mut,
        ctx: AccountsContext,
        bank: Seq<AccountHandle>,
    ) -> AnchorResult<()> {
        Ok(())
    }

    open spec fn late_spec(
        &self,
        constraint: Mut,
        ctx: AccountsContext,
        bank: Seq<AccountHandle>,
    ) -> AnchorResult<()> {
        if bank[self.index as int].is_writable {
            Ok(())
        } else {
            Err(AnchorError::AccountBorrowFailed)
        }
    }

    open spec fn constraint_cleanup_spec(
        &self,
        constraint: Mut,
        ctx: AccountsContext,
        bank: Seq<AccountHandle>,
    ) -> AnchorResult<()> {
        Ok(())
    }

    fn early_validation(
        &self,
        constraint: &Mut,
        ctx: &AccountsContext,
        bank: &Vec<AccountHandle>,
    ) -> (r: AnchorResult<()>) {
        Ok(())
    }

    fn late_validation(
        &self,
        constraint: &Mut,
        ctx: &AccountsContext,
        bank: &Vec<AccountHandle>,
    ) -> (r: AnchorResult<()>) {
        if bank[self.index].is_writable {
            Ok(())
        } else {
            Err(AnchorError::AccountBorrowFailed)
        }
    }

    fn cleanup(&self, constraint: &Mut, ctx: &AccountsContext, bank: &Vec<AccountHandle>) -> (r:
        AnchorResult<()>) {
        Ok(())
    }
}

} // verus!
