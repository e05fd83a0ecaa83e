use vstd::prelude::*;

use crate::error::AnchorResult;
use crate::handle::{AccountHandle, AccountMeta};
use crate::maybe_bool::Flag;
use crate::traits::account::{
    Accounts, CleanupAccounts, DecodeAccounts, SingleAccount, ValidateAccounts,
};
use crate::traits::constraint::SupportsConstraint;
use crate::traits::AccountsContext;

verus! {

// The heap-indirection combinator: every operation forwards to a
// separately allocated copy of the wrapped view, changing only the
// allocation strategy, never the semantics.
impl<T: Accounts> Accounts for Box<T> {
    open spec fn indices(&self) -> Seq<int> {
        (**self).indices()
    }

    open spec fn wf(&self, bank_len: int) -> bool {
        (**self).wf(bank_len)
    }

    open spec fn mutable() -> Flag {
        T::mutable()
    }

    open spec fn can_sign() -> Flag {
        T::can_sign()
    }

    proof fn wf_indices(&self, bank_len: int) {
        (**self).wf_indices(bank_len);
    }

    fn runtime_mutable() -> (r: Flag) {
        T::runtime_mutable()
    }

    fn to_account_infos(&self) -> (r: Vec<usize>) {
        (**self).to_account_infos()
    }

    fn to_account_metas(&self, bank: &Vec<AccountHandle>, is_signer: Option<bool>) -> (r: Vec<
        AccountMeta,
    >) {
        (**self).to_account_metas(bank, is_signer)
    }
}

impl<T: SingleAccount> SingleAccount for Box<T> {
    open spec fn index_spec(&self) -> int {
        (**self).index_spec()
    }

    proof fn single(&self, bank_len: int) {
        (**self).single(bank_len);
    }

    fn account_index(&self) -> (r: usize) {
        (**self).account_index()
    }
}

impl<T: DecodeAccounts<A>, A> DecodeAccounts<A> for Box<T> {
    open spec fn decode_result(
        ctx: AccountsContext,
        bank: Seq<AccountHandle>,
        start: int,
        arg: A,
    ) -> AnchorResult<int> {
        T::decode_result(ctx, bank, start, arg)
    }

    open spec fn decoded(
        ctx: AccountsContext,
        bank: Seq<AccountHandle>,
        start: int,
        arg: A,
        v: Self,
    ) -> bool {
        T::decoded(ctx, bank, start, arg, *v)
    }

    open spec fn size_hint_spec() -> (int, Option<int>) {
        T::size_hint_spec()
    }

    fn try_accounts(
        ctx: &AccountsContext,
        bank: &Vec<AccountHandle>,
        cursor: &mut usize,
        arg: A,
    ) -> (r: AnchorResult<Self>) {
        match T::try_accounts(ctx, bank, cursor, arg) {
            Ok(v) => Ok(Box::new(v)),
            Err(e) => Err(e),
        }
    }

    fn size_hint() -> (r: (usize, Option<usize>)) {
        T::size_hint()
    }
}

impl<T: ValidateAccounts<A>, A> ValidateAccounts<A> for Box<T> {
    open spec fn validate_result(
        &self,
        ctx: AccountsContext,
        bank: Seq<AccountHandle>,
        arg: A,
    ) -> AnchorResult<()> {
        (**self).validate_result(ctx, bank, arg)
    }

    open spec fn validate_post(
        &self,
        ctx: AccountsContext,
        bank: Seq<AccountHandle>,
        arg: A,
        new: Self,
        ok: bool,
    ) -> bool {
        (**self).validate_post(ctx, bank, arg, *new, ok)
    }

    fn validate(&mut self, ctx: &AccountsContext, bank: &Vec<AccountHandle>, arg: A) -> (r:
        AnchorResult<()>) {
        (**self).validate(ctx, bank, arg)
    }
}

impl<T: CleanupAccounts<A>, A> CleanupAccounts<A> for Box<T> {
    open spec fn cleanup_result(
        &self,
        ctx: AccountsContext,
        bank: Seq<AccountHandle>,
        arg: A,
    ) -> AnchorResult<()> {
        (**self).cleanup_result(ctx, bank, arg)
    }

    open spec fn cleaned(
        &self,
        ctx: AccountsContext,
        bank: Seq<AccountHandle>,
        arg: A,
        new_bank: Seq<AccountHandle>,
    ) -> bool {
        (**self).cleaned(ctx, bank, arg, new_bank)
    }

    proof fn cleanup_result_frame(
        &self,
        ctx: AccountsContext,
        arg: A,
        bank1: Seq<AccountHandle>,
        bank2: Seq<AccountHandle>,
    ) {
        assert forall|i: int| (**self).indices().contains(i) implies bank1[i].same_shape(
            bank2[i],
        ) by {
            assert(self.indices().contains(i));
        }
        (**self).cleanup_result_frame(ctx, arg, bank1, bank2);
    }

    proof fn cleaned_frame(
        &self,
        ctx: AccountsContext,
        arg: A,
        bank1: Seq<AccountHandle>,
        new1: Seq<AccountHandle>,
        bank2: Seq<AccountHandle>,
        new2: Seq<AccountHandle>,
    ) {
        assert forall|i: int| (**self).indices().contains(i) implies bank1[i] == bank2[i] && new1[i]
            == new2[i] by {
            assert(self.indices().contains(i));
        }
        (**self).cleaned_frame(ctx, arg, bank1, new1, bank2, new2);
    }

    fn cleanup(&self, ctx: &AccountsContext, bank: &mut Vec<AccountHandle>, arg: A) -> (r:
        AnchorResult<()>) {
        (**self).cleanup(ctx, bank, arg)
    }
}

impl<T: SupportsConstraint<C>, C> SupportsConstraint<C> for Box<T> {
    open spec fn early_spec(
        &self,
        constraint: C,
        ctx: AccountsContext,
        bank: Seq<AccountHandle>,
    ) -> AnchorResult<()> {
        (**self).early_spec(constraint, ctx, bank)
    }

    open spec fn late_spec(
        &self,
        constraint: C,
        ctx: AccountsContext,
        bank: Seq<AccountHandle>,
    ) -> AnchorResult<()> {
        (**self).late_spec(constraint, ctx, bank)
    }

    open spec fn constraint_cleanup_spec(
        &self,
        constraint: C,
        ctx: AccountsContext,
        bank: Seq<AccountHandle>,
    ) -> AnchorResult<()> {
        (**self).constraint_cleanup_spec(constraint, ctx, bank)
    }

    fn early_validation(&self, constraint: &C, ctx: &AccountsContext, bank: &Vec<AccountHandle>) -> (r: AnchorResult<()>) {
        (**self).early_validation(constraint, ctx, bank)
    }

    fn late_validation(&self, constraint: &C, ctx: &AccountsContext, bank: &Vec<AccountHandle>) -> (r: AnchorResult<()>) {
        (**self).late_validation(constraint, ctx, bank)
    }

    fn cleanup(&self, constraint: &C, ctx: &AccountsContext, bank: &Vec<AccountHandle>) -> (r:
        AnchorResult<()>) {
        (**self).cleanup(constraint, ctx, bank)
    }
}

} // verus!
