use vstd::prelude::*;

use crate::error::{AnchorError, AnchorResult};
use crate::handle::{bytes_eq, AccountHandle};
use crate::impls::account_info::AccountInfo;
use crate::traits::builder::{Builder, BuilderField, BuilderFinish, BuilderStart};
use crate::traits::constraint::{Constraint, SupportsConstraint};
use crate::traits::AccountsContext;
use crate::util::EmptyField;

verus! {

/// Address-equality constraint: the account's key must equal the given
/// key; a mismatch fails with `InvalidArgument` in the late phase.
pub struct Address(pub Vec<u8>);

impl Constraint for Address {
    type Builder = AddressBuilder<EmptyField>;
}

/// Marker for the required key field of the `Address` builder.
pub struct AddressKey;

/// Builder for `Address`: the key is a required field, so `finish` is
/// reachable only after `set_field` has supplied it.
pub struct AddressBuilder<K> {
    pub key: K,
}

impl<K> Builder for AddressBuilder<K> {
    type Output = Address;
}

impl BuilderStart for AddressBuilder<EmptyField> {
    fn new() -> Self {
        AddressBuilder { key: EmptyField }
    }
}

impl BuilderField<AddressKey> for AddressBuilder<EmptyField> {
    type FieldType = Vec<u8>;

    type AfterSet = AddressBuilder<Vec<u8>>;

    fn set_field(self, field: Vec<u8>) -> AddressBuilder<Vec<u8>> {
        AddressBuilder { key: field }
    }
}

impl BuilderFinish for AddressBuilder<Vec<u8>> {
    fn finish(self) -> Address {
        Address(self.key)
    }
}

impl SupportsConstraint<Address> for AccountInfo {
    open spec fn early_spec(
        &self,
        constraint: Address,
        ctx: AccountsContext,
        bank: Seq<AccountHandle>,
    ) -> AnchorResult<()> {
        Ok(())
    }

    open spec fn late_spec(
        &self,
        constraint: Address,
        ctx: AccountsContext,
        bank: Seq<AccountHandle>,
    ) -> AnchorResult<()> {
        if bank[self.index as int].key@ == constraint.0@ {
            Ok(())
        } else {
            Err(AnchorError::InvalidArgument)
        }
    }

    open spec fn constraint_cleanup_spec(
        &self,
        constraint: Address,
        ctx: AccountsContext,
        bank: Seq<AccountHandle>,
    ) -> AnchorResult<()> {
        Ok(())
    }

    fn early_validation(
        &self,
        constraint: &Address,
        ctx: &AccountsContext,
        bank: &Vec<AccountHandle>,
    ) -> (r: AnchorResult<()>) {
        Ok(())
    }

    fn late_validation(
        &self,
        constraint: &Address,
        ctx: &AccountsContext,
        bank: &Vec<AccountHandle>,
    ) -> (r: AnchorResult<()>) {
        if bytes_eq(&bank[self.index].key, &constraint.0) {
            Ok(())
        } else {
            Err(AnchorError::InvalidArgument)
        }
    }

    fn cleanup(&self, constraint: &Address, ctx: &AccountsContext, bank: &Vec<AccountHandle>) -> (r:
        AnchorResult<()>) {
        Ok(())
    }
}

} // verus!
