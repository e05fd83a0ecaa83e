use vstd::prelude::*;

use crate::error::{AnchorError, AnchorResult};
use crate::handle::{AccountHandle, AccountMeta};
use crate::impls::account_info::AccountInfo;
use crate::maybe_bool::Flag;
use crate::traits::account::{
    Accounts, CleanupAccounts, DecodeAccounts, SingleAccount, ValidateAccounts,
};
use crate::traits::constraint::SupportsConstraint;
use crate::traits::AccountsContext;

verus! {

/// Every handle reachable through `indices` signed the transaction.
pub open spec fn all_signers(indices: Seq<int>, bank: Seq<AccountHandle>) -> bool {
    forall|k: int| 0 <= k < indices.len() ==> bank[#[trigger] indices[k]].is_signer
}

/// Asserts, at validate time, that every reachable handle is a transaction
/// signer; a mismatch fails with `MissingRequiredSignature`. Statically
/// advertises a known-true *CanSign* flag.
pub struct Signer<T = AccountInfo>(pub T);

impl<T: Accounts> Accounts for Signer<T> {
    open spec fn indices(&self) -> Seq<int> {
        self.0.indices()
    }

    open spec fn wf(&self, bank_len: int) -> bool {
        self.0.wf(bank_len)
    }

    open spec fn mutable() -> Flag {
        T::mutable()
    }

    open spec fn can_sign() -> Flag {
        Flag::True
    }

    proof fn wf_indices(&self, bank_len: int) {
        self.0.wf_indices(bank_len);
    }

    fn runtime_mutable() -> (r: Flag) {
        T::runtime_mutable()
    }

    fn to_account_infos(&self) -> (r: Vec<usize>) {
        self.0.to_account_infos()
    }

    fn to_account_metas(&self, bank: &Vec<AccountHandle>, is_signer: Option<bool>) -> (r: Vec<
        AccountMeta,
    >) {
        self.0.to_account_metas(bank, is_signer)
    }
}

impl<T: SingleAccount> SingleAccount for Signer<T> {
    open spec fn index_spec(&self) -> int {
        self.0.index_spec()
    }

    proof fn single(&self, bank_len: int) {
        self.0.single(bank_len);
    }

    fn account_index(&self) -> (r: usize) {
        self.0.account_index()
    }
}

impl<T: DecodeAccounts<A>, A> DecodeAccounts<A> for Signer<T> {
    open spec fn decode_result(
        ctx: AccountsContext,
        bank: Seq<AccountHandle>,
        start: int,
        arg: A,
    ) -> AnchorResult<int> {
        T::decode_result(ctx, bank, start, arg)
    }

    open spec fn decoded(
        ctx: AccountsContext,
        bank: Seq<AccountHandle>,
        start: int,
        arg: A,
        v: Self,
    ) -> bool {
        T::decoded(ctx, bank, start, arg, v.0)
    }

    open spec fn size_hint_spec() -> (int, Option<int>) {
        T::size_hint_spec()
    }

    fn try_accounts(
        ctx: &AccountsContext,
        bank: &Vec<AccountHandle>,
        cursor: &mut usize,
        arg: A,
    ) -> (r: AnchorResult<Self>) {
        match T::try_accounts(ctx, bank, cursor, arg) {
            Ok(v) => Ok(Signer(v)),
            Err(e) => Err(e),
        }
    }

    fn size_hint() -> (r: (usize, Option<usize>)) {
        T::size_hint()
    }
}

impl<T: ValidateAccounts<A>, A> ValidateAccounts<A> for Signer<T> {
    open spec fn validate_result(
        &self,
        ctx: AccountsContext,
        bank: Seq<AccountHandle>,
        arg: A,
    ) -> AnchorResult<()> {
        if all_signers(self.0.indices(), bank) {
            self.0.validate_result(ctx, bank, arg)
        } else {
            Err(AnchorError::MissingRequiredSignature)
        }
    }

    open spec fn validate_post(
        &self,
        ctx: AccountsContext,
        bank: Seq<AccountHandle>,
        arg: A,
        new: Self,
        ok: bool,
    ) -> bool {
        if all_signers(self.0.indices(), bank) {
            self.0.validate_post(ctx, bank, arg, new.0, ok)
        } else {
            new == *self
        }
    }

    fn validate(&mut self, ctx: &AccountsContext, bank: &Vec<AccountHandle>, arg: A) -> (r:
        AnchorResult<()>) {
        proof {
            self.0.wf_indices(bank@.len() as int);
        }
        let infos = self.0.to_account_infos();
        let mut k: usize = 0;
        while k < infos.len()
            invariant
                k <= infos@.len(),
                *self == *old(self),
                self.wf(bank@.len() as int),
                infos@.len() == self.0.indices().len(),
                forall|j: int| 0 <= j < infos@.len() ==> #[trigger] infos@[j] as int
                    == self.0.indices()[j],
                forall|j: int|
                    0 <= j < self.0.indices().len() ==> 0 <= #[trigger] self.0.indices()[j]
                        < bank@.len(),
                forall|j: int| 0 <= j < k ==> bank@[#[trigger] self.0.indices()[j]].is_signer,
            decreases infos@.len() - k,
        {
            let idx = infos[k];
            if !bank[idx].is_signer {
                proof {
                    assert(!all_signers(self.0.indices(), bank@));
                }
                return Err(AnchorError::MissingRequiredSignature);
            }
            k = k + 1;
        }
        proof {
            assert(all_signers(self.0.indices(), bank@));
        }
        self.0.validate(ctx, bank, arg)
    }
}

impl<T: CleanupAccounts<A>, A> CleanupAccounts<A> for Signer<T> {
    open spec fn cleanup_result(
        &self,
        ctx: AccountsContext,
        bank: Seq<AccountHandle>,
        arg: A,
    ) -> AnchorResult<()> {
        self.0.cleanup_result(ctx, bank, arg)
    }

    open spec fn cleaned(
        &self,
        ctx: AccountsContext,
        bank: Seq<AccountHandle>,
        arg: A,
        new_bank: Seq<AccountHandle>,
    ) -> bool {
        self.0.cleaned(ctx, bank, arg, new_bank)
    }

    proof fn cleanup_result_frame(
        &self,
        ctx: AccountsContext,
        arg: A,
        bank1: Seq<AccountHandle>,
        bank2: Seq<AccountHandle>,
    ) {
        assert forall|i: int| self.0.indices().contains(i) implies bank1[i].same_shape(
            bank2[i],
        ) by {
            assert(self.indices().contains(i));
        }
        self.0.cleanup_result_frame(ctx, arg, bank1, bank2);
    }

    proof fn cleaned_frame(
        &self,
        ctx: AccountsContext,
        arg: A,
        bank1: Seq<AccountHandle>,
        new1: Seq<AccountHandle>,
        bank2: Seq<AccountHandle>,
        new2: Seq<AccountHandle>,
    ) {
        assert forall|i: int| self.0.indices().contains(i) implies bank1[i] == bank2[i]
            && new1[i] == new2[i] by {
            assert(self.indices().contains(i));
        }
        self.0.cleaned_frame(ctx, arg, bank1, new1, bank2, new2);
    }

    fn cleanup(&self, ctx: &AccountsContext, bank: &mut Vec<AccountHandle>, arg: A) -> (r:
        AnchorResult<()>) {
        self.0.cleanup(ctx, bank, arg)
    }
}

impl<T: SupportsConstraint<C>, C> SupportsConstraint<C> for Signer<T> {
    open spec fn early_spec(
        &self,
        constraint: C,
        ctx: AccountsContext,
        bank: Seq<AccountHandle>,
    ) -> AnchorResult<()> {
        self.0.early_spec(constraint, ctx, bank)
    }

    open spec fn late_spec(
        &self,
        constraint: C,
        ctx: AccountsContext,
        bank: Seq<AccountHandle>,
    ) -> AnchorResult<()> {
        self.0.late_spec(constraint, ctx, bank)
    }

    open spec fn constraint_cleanup_spec(
        &self,
        constraint: C,
        ctx: AccountsContext,
        bank: Seq<AccountHandle>,
    ) -> AnchorResult<()> {
        self.0.constraint_cleanup_spec(constraint, ctx, bank)
    }

    fn early_validation(&self, constraint: &C, ctx: &AccountsContext, bank: &Vec<AccountHandle>) -> (r: AnchorResult<()>) {
        self.0.early_validation(constraint, ctx, bank)
    }

    fn late_validation(&self, constraint: &C, ctx: &AccountsContext, bank: &Vec<AccountHandle>) -> (r: AnchorResult<()>) {
        self.0.late_validation(constraint, ctx, bank)
    }

    fn cleanup(&self, constraint: &C, ctx: &AccountsContext, bank: &Vec<AccountHandle>) -> (r:
        AnchorResult<()>) {
        self.0.cleanup(constraint, ctx, bank)
    }
}

} // verus!
