use vstd::prelude::*;

use core::marker::PhantomData;

use crate::error::{AnchorError, AnchorResult};
use crate::handle::{AccountHandle, AccountMeta};
use crate::impls::account_info::AccountInfo;
use crate::maybe_bool::{Bool, False, Flag, True};
use crate::traits::account::{
    Accounts, CleanupAccounts, DecodeAccounts, SingleAccount, ValidateAccounts,
};
use crate::traits::constraint::SupportsConstraint;
use crate::traits::AccountsContext;

verus! {

/// Every handle reachable through `indices` has the expected dynamic
/// writable flag.
pub open spec fn all_writable(indices: Seq<int>, bank: Seq<AccountHandle>, expected: bool) -> bool {
    forall|k: int| 0 <= k < indices.len() ==> bank[#[trigger] indices[k]].is_writable == expected
}

/// Asserts, at validate time, that every reachable handle is dynamically
/// writable (`M = True`) or dynamically read-only (`M = False`), and
/// statically advertises the corresponding known *Mutable* flag so that
/// dependent code can elide its own writability check. A mismatch fails
/// with `AccountBorrowFailed`.
pub struct Mutability<T, M> {
    pub inner: T,
    pub _mode: PhantomData<M>,
}

/// A view asserting every reachable handle is writable.
pub type Mut<T = AccountInfo> = Mutability<T, True>;

/// A view asserting every reachable handle is read-only.
pub type ReadOnly<T = AccountInfo> = Mutability<T, False>;

impl<T, M: Bool> Mutability<T, M> {
    pub fn new(inner: T) -> (r: Self)
        ensures
            r.inner == inner,
    {
        Mutability { inner, _mode: PhantomData }
    }
}

impl<T: Accounts, M: Bool> Accounts for Mutability<T, M> {
    open spec fn indices(&self) -> Seq<int> {
        self.inner.indices()
    }

    open spec fn wf(&self, bank_len: int) -> bool {
        self.inner.wf(bank_len)
    }

    open spec fn mutable() -> Flag {
        if M::value_spec() {
            Flag::True
        } else {
            Flag::False
        }
    }

    open spec fn can_sign() -> Flag {
        T::can_sign()
    }

    proof fn wf_indices(&self, bank_len: int) {
        self.inner.wf_indices(bank_len);
    }

    fn runtime_mutable() -> (r: Flag) {
        if M::value() {
            Flag::True
        } else {
            Flag::False
        }
    }

    fn to_account_infos(&self) -> (r: Vec<usize>) {
        self.inner.to_account_infos()
    }

    fn to_account_metas(&self, bank: &Vec<AccountHandle>, is_signer: Option<bool>) -> (r: Vec<
        AccountMeta,
    >) {
        self.inner.to_account_metas(bank, is_signer)
    }
}

impl<T: SingleAccount, M: Bool> SingleAccount for Mutability<T, M> {
    open spec fn index_spec(&self) -> int {
        self.inner.index_spec()
    }

    proof fn single(&self, bank_len: int) {
        self.inner.single(bank_len);
    }

    fn account_index(&self) -> (r: usize) {
        self.inner.account_index()
    }
}

impl<T: DecodeAccounts<A>, A, M: Bool> DecodeAccounts<A> for Mutability<T, M> {
    open spec fn decode_result(
        ctx: AccountsContext,
        bank: Seq<AccountHandle>,
        start: int,
        arg: A,
    ) -> AnchorResult<int> {
        T::decode_result(ctx, bank, start, arg)
    }

    open spec fn decoded(
        ctx: AccountsContext,
        bank: Seq<AccountHandle>,
        start: int,
        arg: A,
        v: Self,
    ) -> bool {
        T::decoded(ctx, bank, start, arg, v.inner)
    }

    open spec fn size_hint_spec() -> (int, Option<int>) {
        T::size_hint_spec()
    }

    fn try_accounts(
        ctx: &AccountsContext,
        bank: &Vec<AccountHandle>,
        cursor: &mut usize,
        arg: A,
    ) -> (r: AnchorResult<Self>) {
        match T::try_accounts(ctx, bank, cursor, arg) {
            Ok(v) => Ok(Mutability { inner: v, _mode: PhantomData }),
            Err(e) => Err(e),
        }
    }

    fn size_hint() -> (r: (usize, Option<usize>)) {
        T::size_hint()
    }
}

impl<T: ValidateAccounts<A>, A, M: Bool> ValidateAccounts<A> for Mutability<T, M> {
    open spec fn validate_result(
        &self,
        ctx: AccountsContext,
        bank: Seq<AccountHandle>,
        arg: A,
    ) -> AnchorResult<()> {
        if all_writable(self.inner.indices(), bank, M::value_spec()) {
            self.inner.validate_result(ctx, bank, arg)
        } else {
            Err(AnchorError::AccountBorrowFailed)
        }
    }

    open spec fn validate_post(
        &self,
        ctx: AccountsContext,
        bank: Seq<AccountHandle>,
        arg: A,
        new: Self,
        ok: bool,
    ) -> bool {
        if all_writable(self.inner.indices(), bank, M::value_spec()) {
            self.inner.validate_post(ctx, bank, arg, new.inner, ok)
        } else {
            new.inner == self.inner
        }
    }

    fn validate(&mut self, ctx: &AccountsContext, bank: &Vec<AccountHandle>, arg: A) -> (r:
        AnchorResult<()>) {
        proof {
            self.inner.wf_indices(bank@.len() as int);
        }
        let want = M::value();
        let infos = self.inner.to_account_infos();
        let mut k: usize = 0;
        while k < infos.len()
            invariant
                k <= infos@.len(),
                *self == *old(self),
                self.wf(bank@.len() as int),
                want == M::value_spec(),
                infos@.len() == self.inner.indices().len(),
                forall|j: int| 0 <= j < infos@.len() ==> #[trigger] infos@[j] as int
                    == self.inner.indices()[j],
                forall|j: int|
                    0 <= j < self.inner.indices().len() ==> 0 <= #[trigger] self.inner.indices()[j]
                        < bank@.len(),
                forall|j: int|
                    0 <= j < k ==> bank@[#[trigger] self.inner.indices()[j]].is_writable == want,
            decreases infos@.len() - k,
        {
            let idx = infos[k];
            if bank[idx].is_writable != want {
                proof {
                    assert(!all_writable(self.inner.indices(), bank@, M::value_spec()));
                }
                return Err(AnchorError::AccountBorrowFailed);
            }
            k = k + 1;
        }
        proof {
            assert(all_writable(self.inner.indices(), bank@, M::value_spec()));
        }
        self.inner.validate(ctx, bank, arg)
    }
}

impl<T: CleanupAccounts<A>, A, M: Bool> CleanupAccounts<A> for Mutability<T, M> {
    open spec fn cleanup_result(
        &self,
        ctx: AccountsContext,
        bank: Seq<AccountHandle>,
        arg: A,
    ) -> AnchorResult<()> {
        self.inner.cleanup_result(ctx, bank, arg)
    }

    open spec fn cleaned(
        &self,
        ctx: AccountsContext,
        bank: Seq<AccountHandle>,
        arg: A,
        new_bank: Seq<AccountHandle>,
    ) -> bool {
        self.inner.cleaned(ctx, bank, arg, new_bank)
    }

    proof fn cleanup_result_frame(
        &self,
        ctx: AccountsContext,
        arg: A,
        bank1: Seq<AccountHandle>,
        bank2: Seq<AccountHandle>,
    ) {
        assert forall|i: int| self.inner.indices().contains(i) implies bank1[i].same_shape(
            bank2[i],
        ) by {
            assert(self.indices().contains(i));
        }
        self.inner.cleanup_result_frame(ctx, arg, bank1, bank2);
    }

    proof fn cleaned_frame(
        &self,
        ctx: AccountsContext,
        arg: A,
        bank1: Seq<AccountHandle>,
        new1: Seq<AccountHandle>,
        bank2: Seq<AccountHandle>,
        new2: Seq<AccountHandle>,
    ) {
        assert forall|i: int| self.inner.indices().contains(i) implies bank1[i] == bank2[i]
            && new1[i] == new2[i] by {
            assert(self.indices().contains(i));
        }
        self.inner.cleaned_frame(ctx, arg, bank1, new1, bank2, new2);
    }

    fn cleanup(&self, ctx: &AccountsContext, bank: &mut Vec<AccountHandle>, arg: A) -> (r:
        AnchorResult<()>) {
        self.inner.cleanup(ctx, bank, arg)
    }
}

impl<T: SupportsConstraint<C>, C, M: Bool> SupportsConstraint<C> for Mutability<T, M> {
    open spec fn early_spec(
        &self,
        constraint: C,
        ctx: AccountsContext,
        bank: Seq<AccountHandle>,
    ) -> AnchorResult<()> {
        self.inner.early_spec(constraint, ctx, bank)
    }

    open spec fn late_spec(
        &self,
        constraint: C,
        ctx: AccountsContext,
        bank: Seq<AccountHandle>,
    ) -> AnchorResult<()> {
        self.inner.late_spec(constraint, ctx, bank)
    }

    open spec fn constraint_cleanup_spec(
        &self,
        constraint: C,
        ctx: AccountsContext,
        bank: Seq<AccountHandle>,
    ) -> AnchorResult<()> {
        self.inner.constraint_cleanup_spec(constraint, ctx, bank)
    }

    fn early_validation(&self, constraint: &C, ctx: &AccountsContext, bank: &Vec<AccountHandle>) -> (r: AnchorResult<()>) {
        self.inner.early_validation(constraint, ctx, bank)
    }

    fn late_validation(&self, constraint: &C, ctx: &AccountsContext, bank: &Vec<AccountHandle>) -> (r: AnchorResult<()>) {
        self.inner.late_validation(constraint, ctx, bank)
    }

    fn cleanup(&self, constraint: &C, ctx: &AccountsContext, bank: &Vec<AccountHandle>) -> (r:
        AnchorResult<()>) {
        self.inner.cleanup(constraint, ctx, bank)
    }
}

} // verus!
