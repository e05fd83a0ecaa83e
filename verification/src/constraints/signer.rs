use vstd::prelude::*;

use crate::error::{AnchorError, AnchorResult};
use crate::handle::AccountHandle;
use crate::impls::account_info::AccountInfo;
use crate::traits::builder::{Builder, BuilderFinish, BuilderStart};
use crate::traits::constraint::{Constraint, SupportsConstraint};
use crate::traits::AccountsContext;

verus! {

/// Signer constraint: the account must have signed the transaction; a
/// mismatch fails with `MissingRequiredSignature` in the late phase. It has
/// no required fields, so it is its own builder.
pub struct Signer;

impl Constraint for Signer {
    type Builder = Signer;
}

impl Builder for Signer {
    type Output = Signer;
}

impl BuilderStart for Signer {
    fn new() -> Self {
        Signer
    }
}

impl BuilderFinish for Signer {
    fn finish(self) -> Signer {
        self
    }
}

impl SupportsConstraint<Signer> for AccountInfo {
    open spec fn early_spec(
        &self,
        constraint: Signer,
        ctx: AccountsContext,
        bank: Seq<AccountHandle>,
    ) -> AnchorResult<()> {
        Ok(())
    }

    open spec fn late_spec(
        &self,
        constraint: Signer,
        ctx: AccountsContext,
        bank: Seq<AccountHandle>,
    ) -> AnchorResult<()> {
        if bank[self.index as int].is_signer {
            Ok(())
        } else {
            Err(AnchorError::MissingRequiredSignature)
        }
    }

    open spec fn constraint_cleanup_spec(
        &self,
        constraint: Signer,
        ctx: AccountsContext,
        bank: Seq<AccountHandle>,
    ) -> AnchorResult<()> {
        Ok(())
    }

    fn early_validation(
        &self,
        constraint: &Signer,
        ctx: &AccountsContext,
        bank: &Vec<AccountHandle>,
    ) -> (r: AnchorResult<()>) {
        Ok(())
    }

    fn late_validation(
        &self,
        constraint: &Signer,
        ctx: &AccountsContext,
        bank: &Vec<AccountHandle>,
    ) -> (r: AnchorResult<()>) {
        if bank[self.index].is_signer {
            Ok(())
        } else {
            Err(AnchorError::MissingRequiredSignature)
        }
    }

    fn cleanup(&self, constraint: &Signer, ctx: &AccountsContext, bank: &Vec<AccountHandle>) -> (r:
        AnchorResult<()>) {
        Ok(())
    }
}

} // verus!
