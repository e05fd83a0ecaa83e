use vstd::prelude::*;

use crate::error::{AnchorError, AnchorResult};
use crate::handle::{bytes_eq, AccountHandle};
use crate::impls::account_info::AccountInfo;
use crate::traits::constraint::SupportsConstraint;
use crate::traits::AccountsContext;

verus! {

/// Owner-equality constraint: the account's current owner must equal the
/// given key; a mismatch fails with `InvalidArgument` in the late phase.
pub struct Owner(pub Vec<u8>);

impl SupportsConstraint<Owner> for AccountInfo {
    open spec fn early_spec(
        &self,
        constraint: Owner,
        ctx: AccountsContext,
        bank: Seq<AccountHandle>,
    ) -> AnchorResult<()> {
        Ok(())
    }

    open spec fn late_spec(
        &self,
        constraint: Owner,
        ctx: AccountsContext,
        bank: Seq<AccountHandle>,
    ) -> AnchorResult<()> {
        if bank[self.index as int].owner@ == constraint.0@ {
            Ok(())
        } else {
            Err(AnchorError::InvalidArgument)
        }
    }

    open spec fn constraint_cleanup_spec(
        &self,
        constraint: Owner,
        ctx: AccountsContext,
        bank: Seq<AccountHandle>,
    ) -> AnchorResult<()> {
        Ok(())
    }

    fn early_validation(
        &self,
        constraint: &Owner,
        ctx: &AccountsContext,
        bank: &Vec<AccountHandle>,
    ) -> (r: AnchorResult<()>) {
        Ok(())
    }

    fn late_validation(
        &self,
        constraint: &Owner,
        ctx: &AccountsContext,
        bank: &Vec<AccountHandle>,
    ) -> (r: AnchorResult<()>) {
        if bytes_eq(&bank[self.index].owner, &constraint.0) {
            Ok(())
        } else {
            Err(AnchorError::InvalidArgument)
        }
    }

    fn cleanup(&self, constraint: &Owner, ctx: &AccountsContext, bank: &Vec<AccountHandle>) -> (r:
        AnchorResult<()>) {
        Ok(())
    }
}

} // verus!
