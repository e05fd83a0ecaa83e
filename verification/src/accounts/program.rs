use vstd::prelude::*;

use core::marker::PhantomData;

use crate::error::{AnchorError, AnchorResult};
use crate::handle::{bytes_eq, AccountHandle, AccountMeta};
use crate::impls::account_info::AccountInfo;
use crate::maybe_bool::Flag;
use crate::traits::account::{
    Accounts, CleanupAccounts, DecodeAccounts, SingleAccount, ValidateAccounts,
};
use crate::traits::program::ProgramId;
use crate::traits::constraint::SupportsConstraint;
use crate::traits::AccountsContext;

verus! {

/// Annotates a view known to denote the on-chain program `P`: validate
/// asserts the wrapped account's key equals `P`'s statically known id and
/// fails with `IncorrectProgramId` otherwise.
pub struct Program<P, T = AccountInfo> {
    pub info: T,
    pub _program: PhantomData<P>,
}

impl<P: ProgramId, T> Program<P, T> {
    /// Wrap a view without checking the program identity; validate performs
    /// the check.
    pub fn new_unchecked(info: T) -> (r: Self)
        ensures
            r.info == info,
    {
        Program { info, _program: PhantomData }
    }
}

impl<P: ProgramId, T: Accounts> Accounts for Program<P, T> {
    open spec fn indices(&self) -> Seq<int> {
        self.info.indices()
    }

    open spec fn wf(&self, bank_len: int) -> bool {
        self.info.wf(bank_len)
    }

    open spec fn mutable() -> Flag {
        T::mutable()
    }

    open spec fn can_sign() -> Flag {
        T::can_sign()
    }

    proof fn wf_indices(&self, bank_len: int) {
        self.info.wf_indices(bank_len);
    }

    fn runtime_mutable() -> (r: Flag) {
        T::runtime_mutable()
    }

    fn to_account_infos(&self) -> (r: Vec<usize>) {
        self.info.to_account_infos()
    }

    fn to_account_metas(&self, bank: &Vec<AccountHandle>, is_signer: Option<bool>) -> (r: Vec<
        AccountMeta,
    >) {
        self.info.to_account_metas(bank, is_signer)
    }
}

impl<P: ProgramId, T: SingleAccount> SingleAccount for Program<P, T> {
    open spec fn index_spec(&self) -> int {
        self.info.index_spec()
    }

    proof fn single(&self, bank_len: int) {
        self.info.single(bank_len);
    }

    fn account_index(&self) -> (r: usize) {
        self.info.account_index()
    }
}

impl<P: ProgramId, T: DecodeAccounts<A>, A> DecodeAccounts<A> for Program<P, T> {
    open spec fn decode_result(
        ctx: AccountsContext,
        bank: Seq<AccountHandle>,
        start: int,
        arg: A,
    ) -> AnchorResult<int> {
        T::decode_result(ctx, bank, start, arg)
    }

    open spec fn decoded(
        ctx: AccountsContext,
        bank: Seq<AccountHandle>,
        start: int,
        arg: A,
        v: Self,
    ) -> bool {
        T::decoded(ctx, bank, start, arg, v.info)
    }

    open spec fn size_hint_spec() -> (int, Option<int>) {
        T::size_hint_spec()
    }

    fn try_accounts(
        ctx: &AccountsContext,
        bank: &Vec<AccountHandle>,
        cursor: &mut usize,
        arg: A,
    ) -> (r: AnchorResult<Self>) {
        match T::try_accounts(ctx, bank, cursor, arg) {
            Ok(v) => Ok(Program::new_unchecked(v)),
            Err(e) => Err(e),
        }
    }

    fn size_hint() -> (r: (usize, Option<usize>)) {
        T::size_hint()
    }
}

impl<P: ProgramId, T: ValidateAccounts<A> + SingleAccount, A> ValidateAccounts<A> for Program<
    P,
    T,
> {
    open spec fn validate_result(
        &self,
        ctx: AccountsContext,
        bank: Seq<AccountHandle>,
        arg: A,
    ) -> AnchorResult<()> {
        if bank[self.info.index_spec()].key@ == P::id_spec() {
            self.info.validate_result(ctx, bank, arg)
        } else {
            Err(AnchorError::IncorrectProgramId)
        }
    }

    open spec fn validate_post(
        &self,
        ctx: AccountsContext,
        bank: Seq<AccountHandle>,
        arg: A,
        new: Self,
        ok: bool,
    ) -> bool {
        if bank[self.info.index_spec()].key@ == P::id_spec() {
            self.info.validate_post(ctx, bank, arg, new.info, ok)
        } else {
            new == *self
        }
    }

    fn validate(&mut self, ctx: &AccountsContext, bank: &Vec<AccountHandle>, arg: A) -> (r:
        AnchorResult<()>) {
        proof {
            self.info.single(bank@.len() as int);
        }
        let idx = self.info.account_index();
        let expected = P::id();
        if bytes_eq(&bank[idx].key, &expected) {
            self.info.validate(ctx, bank, arg)
        } else {
            Err(AnchorError::IncorrectProgramId)
        }
    }
}

impl<P: ProgramId, T: CleanupAccounts<A>, A> CleanupAccounts<A> for Program<P, T> {
    open spec fn cleanup_result(
        &self,
        ctx: AccountsContext,
        bank: Seq<AccountHandle>,
        arg: A,
    ) -> AnchorResult<()> {
        self.info.cleanup_result(ctx, bank, arg)
    }

    open spec fn cleaned(
        &self,
        ctx: AccountsContext,
        bank: Seq<AccountHandle>,
        arg: A,
        new_bank: Seq<AccountHandle>,
    ) -> bool {
        self.info.cleaned(ctx, bank, arg, new_bank)
    }

    proof fn cleanup_result_frame(
        &self,
        ctx: AccountsContext,
        arg: A,
        bank1: Seq<AccountHandle>,
        bank2: Seq<AccountHandle>,
    ) {
        assert forall|i: int| self.info.indices().contains(i) implies bank1[i].same_shape(
            bank2[i],
        ) by {
            assert(self.indices().contains(i));
        }
        self.info.cleanup_result_frame(ctx, arg, bank1, bank2);
    }

    proof fn cleaned_frame(
        &self,
        ctx: AccountsContext,
        arg: A,
        bank1: Seq<AccountHandle>,
        new1: Seq<AccountHandle>,
        bank2: Seq<AccountHandle>,
        new2: Seq<AccountHandle>,
    ) {
        assert forall|i: int| self.info.indices().contains(i) implies bank1[i] == bank2[i]
            && new1[i] == new2[i] by {
            assert(self.indices().contains(i));
        }
        self.info.cleaned_frame(ctx, arg, bank1, new1, bank2, new2);
    }

    fn cleanup(&self, ctx: &AccountsContext, bank: &mut Vec<AccountHandle>, arg: A) -> (r:
        AnchorResult<()>) {
        self.info.cleanup(ctx, bank, arg)
    }
}

impl<P: ProgramId, T: SupportsConstraint<C>, C> SupportsConstraint<C> for Program<P, T> {
    open spec fn early_spec(
        &self,
        constraint: C,
        ctx: AccountsContext,
        bank: Seq<AccountHandle>,
    ) -> AnchorResult<()> {
        self.info.early_spec(constraint, ctx, bank)
    }

    open spec fn late_spec(
        &self,
        constraint: C,
        ctx: AccountsContext,
        bank: Seq<AccountHandle>,
    ) -> AnchorResult<()> {
        self.info.late_spec(constraint, ctx, bank)
    }

    open spec fn constraint_cleanup_spec(
        &self,
        constraint: C,
        ctx: AccountsContext,
        bank: Seq<AccountHandle>,
    ) -> AnchorResult<()> {
        self.info.constraint_cleanup_spec(constraint, ctx, bank)
    }

    fn early_validation(&self, constraint: &C, ctx: &AccountsContext, bank: &Vec<AccountHandle>) -> (r: AnchorResult<()>) {
        self.info.early_validation(constraint, ctx, bank)
    }

    fn late_validation(&self, constraint: &C, ctx: &AccountsContext, bank: &Vec<AccountHandle>) -> (r: AnchorResult<()>) {
        self.info.late_validation(constraint, ctx, bank)
    }

    fn cleanup(&self, constraint: &C, ctx: &AccountsContext, bank: &Vec<AccountHandle>) -> (r:
        AnchorResult<()>) {
        self.info.cleanup(constraint, ctx, bank)
    }
}

} // verus!
