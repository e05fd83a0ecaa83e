use vstd::prelude::*;

use crate::error::{AnchorError, AnchorResult};
use crate::handle::AccountHandle;
use crate::impls::account_info::AccountInfo;
use crate::traits::constraint::SupportsConstraint;
use crate::traits::AccountsContext;

verus! {

/// Executability constraint: the account must denote an executable
/// program; a mismatch fails with `InvalidArgument` in the late phase.
pub struct Executable;

impl SupportsConstraint<Executable> for AccountInfo {
    open spec fn early_spec(
        &self,
        constraint: Executable,
        ctx: AccountsContext,
        bank: Seq<AccountHandle>,
    ) -> AnchorResult<()> {
        Ok(())
    }

    open spec fn late_spec(
        &self,
        constraint: Executable,
        ctx: AccountsContext,
        bank: Seq<AccountHandle>,
    ) -> AnchorResult<()> {
        if bank[self.index as int].executable {
            Ok(())
        } else {
            Err(AnchorError::InvalidArgument)
        }
    }

    open spec fn constraint_cleanup_spec(
        &self,
        constraint: Executable,
        ctx: AccountsContext,
        bank: Seq<AccountHandle>,
    ) -> AnchorResult<()> {
        Ok(())
    }

    fn early_validation(
        &self,
        constraint: &Executable,
        ctx: &AccountsContext,
        bank: &Vec<AccountHandle>,
    ) -> (r: AnchorResult<()>) {
        Ok(())
    }

    fn late_validation(
        &self,
        constraint: &Executable,
        ctx: &AccountsContext,
        bank: &Vec<AccountHandle>,
    ) -> (r: AnchorResult<()>) {
        if bank[self.index].executable {
            Ok(())
        } else {
            Err(AnchorError::InvalidArgument)
        }
    }

    fn cleanup(&self, constraint: &Executable, ctx: &AccountsContext, bank: &Vec<AccountHandle>) -> (r:
        AnchorResult<()>) {
        Ok(())
    }
}

} // verus!
