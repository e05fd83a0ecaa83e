use vstd::prelude::*;

use core::marker::PhantomData;

use crate::accounts::mutable::ReadOnly;
use crate::error::{AnchorError, AnchorResult};
use crate::handle::{
    bytes_eq, copy_tail, overwrite_prefix, starts_with, AccountHandle, AccountMeta,
};
use crate::impls::account_info::AccountInfo;
use crate::maybe_bool::Flag;
use crate::traits::account::{
    Accounts, CleanupAccounts, DecodeAccounts, SingleAccount, ValidateAccounts,
};
use crate::traits::account_data::{AccountData, FixedData};
use crate::traits::program::{CurrentProgram, GetProgramId};
use crate::traits::constraint::SupportsConstraint;
use crate::traits::AccountsContext;

verus! {

/// A fixed-layout zero-copy window over a single account's buffer,
/// immediately after the discriminant tag.
///
/// The wrapper holds no copy of the data; every access goes through a
/// checked reinterpretation of the buffer that validates the tag and the
/// byte pattern first. `data` reads under a dynamic shared-borrow check,
/// `write_data` writes under a dynamic exclusive-borrow check and is
/// available only when the wrapper is statically mutable, and
/// `data_readonly` is a no-borrow fast path available only when the
/// wrapper is statically read-only. Validate checks ownership and the tag
/// independently, so invalid data is rejected even if no typed accessor
/// is ever invoked; cleanup has nothing to write back.
pub struct BytemuckAccount<T, A = ReadOnly<AccountInfo>, P = CurrentProgram> {
    pub account: A,
    pub _data: PhantomData<T>,
    pub _program: PhantomData<P>,
}

/// What every typed accessor checks about the buffer of handle `h`: the
/// tag matches and the window after it has `T`'s size and a valid bit
/// pattern.
pub open spec fn window_ok<T: FixedData>(h: AccountHandle) -> bool {
    let disc = T::discriminant_spec();
    &&& h.data@.len() >= disc.len()
    &&& h.data@.subrange(0, disc.len() as int) == disc
    &&& T::decodable(h.data@.skip(disc.len() as int))
}

impl<T: FixedData, A: SingleAccount, P: GetProgramId> BytemuckAccount<T, A, P> {
    /// Immutable checked access: takes a scoped dynamic shared borrow,
    /// validates tag and pattern, and hands back the decoded window.
    pub fn data(&self, bank: &Vec<AccountHandle>) -> (r: AnchorResult<T>)
        requires
            self.wf(bank@.len() as int),
        ensures
            ({
                let h = bank@[self.account.index_spec()];
                match r {
                    Ok(v) => {
                        &&& h.may_borrow_shared()
                        &&& window_ok::<T>(h)
                        &&& v.encoding() == h.data@.skip(T::discriminant_spec().len() as int)
                    },
                    Err(e) => {
                        if !h.may_borrow_shared() {
                            e == AnchorError::AccountBorrowFailed
                        } else {
                            !window_ok::<T>(h) && e == AnchorError::InvalidAccountData
                        }
                    },
                }
            }),
    {
        proof {
            self.account.single(bank@.len() as int);
        }
        let idx = self.account.account_index();
        if bank[idx].exclusive_borrow {
            return Err(AnchorError::AccountBorrowFailed);
        }
        read_window::<T>(&bank[idx])
    }

    /// Mutable checked access, available only when the wrapper is
    /// statically mutable: takes a scoped dynamic exclusive borrow,
    /// validates tag and pattern, and writes the value's bytes over the
    /// window.
    pub fn write_data(&self, bank: &mut Vec<AccountHandle>, value: &T) -> (r: AnchorResult<()>)
        requires
            A::mutable() == Flag::True,
            self.wf(old(bank)@.len() as int),
            crate::handle::bank_wf(old(bank)@),
        ensures
            final(bank)@.len() == old(bank)@.len(),
            forall|i: int|
                0 <= i < old(bank)@.len() && i != self.account.index_spec() ==> final(bank)@[i]
                    == old(bank)@[i],
            final(bank)@[self.account.index_spec()].same_account(
                old(bank)@[self.account.index_spec()],
            ),
            final(bank)@[self.account.index_spec()].shared_borrows == old(bank)@[
                self.account.index_spec()
            ].shared_borrows,
            final(bank)@[self.account.index_spec()].exclusive_borrow == old(bank)@[
                self.account.index_spec()
            ].exclusive_borrow,
            crate::handle::bank_wf(final(bank)@),
            ({
                let h = old(bank)@[self.account.index_spec()];
                let disc = T::discriminant_spec();
                match r {
                    Ok(()) => {
                        &&& h.may_borrow_exclusive()
                        &&& window_ok::<T>(h)
                        &&& final(bank)@[self.account.index_spec()].data@ == disc
                            + value.encoding()
                    },
                    Err(e) => {
                        &&& final(bank)@[self.account.index_spec()] == h
                        &&& if !h.may_borrow_exclusive() {
                            e == AnchorError::AccountBorrowFailed
                        } else {
                            !window_ok::<T>(h) && e == AnchorError::InvalidAccountData
                        }
                    },
                }
            }),
    {
        proof {
            self.account.single(old(bank)@.len() as int);
        }
        let idx = self.account.account_index();
        if bank[idx].exclusive_borrow || bank[idx].shared_borrows != 0 {
            return Err(AnchorError::AccountBorrowFailed);
        }
        match read_window::<T>(&bank[idx]) {
            Err(e) => Err(e),
            Ok(_) => {
                let disc = T::discriminant();
                let enc = value.serialize();
                proof {
                    value.fixed_size();
                    T::fixed_decodable(
                        old(bank)@[idx as int].data@.skip(T::discriminant_spec().len() as int),
                    );
                }
                let new_data = overwrite_prefix(&bank[idx].data, &disc, &enc);
                let h = &mut bank[idx];
                h.data = new_data;
                proof {
                    assert(final(h).data@ =~= T::discriminant_spec() + value.encoding());
                }
                Ok(())
            },
        }
    }

    /// No-borrow immutable fast path, available only when the wrapper is
    /// statically read-only: no concurrent writer can exist, so the buffer
    /// is read without any dynamic borrow check.
    pub fn data_readonly(&self, bank: &Vec<AccountHandle>) -> (r: AnchorResult<T>)
        requires
            A::mutable() == Flag::False,
            self.wf(bank@.len() as int),
        ensures
            ({
                let h = bank@[self.account.index_spec()];
                match r {
                    Ok(v) => {
                        &&& window_ok::<T>(h)
                        &&& v.encoding() == h.data@.skip(T::discriminant_spec().len() as int)
                    },
                    Err(e) => !window_ok::<T>(h) && e == AnchorError::InvalidAccountData,
                }
            }),
    {
        proof {
            self.account.single(bank@.len() as int);
        }
        let idx = self.account.account_index();
        read_window::<T>(&bank[idx])
    }
}

/// Check the tag and decode the fixed-layout window of one handle.
fn read_window<T: FixedData>(h: &AccountHandle) -> (r: AnchorResult<T>)
    ensures
        match r {
            Ok(v) => window_ok::<T>(*h) && v.encoding() == h.data@.skip(
                T::discriminant_spec().len() as int,
            ),
            Err(e) => !window_ok::<T>(*h) && e == AnchorError::InvalidAccountData,
        },
{
    let disc = T::discriminant();
    if !starts_with(&h.data, &disc) {
        return Err(AnchorError::InvalidAccountData);
    }
    let window = copy_tail(&h.data, disc.len());
    T::try_from_slice(window.as_slice())
}

impl<T: FixedData, A: SingleAccount, P: GetProgramId> Accounts for BytemuckAccount<T, A, P> {
    open spec fn indices(&self) -> Seq<int> {
        self.account.indices()
    }

    open spec fn wf(&self, bank_len: int) -> bool {
        self.account.wf(bank_len)
    }

    open spec fn mutable() -> Flag {
        A::mutable()
    }

    open spec fn can_sign() -> Flag {
        A::can_sign()
    }

    proof fn wf_indices(&self, bank_len: int) {
        self.account.wf_indices(bank_len);
    }

    fn runtime_mutable() -> (r: Flag) {
        A::runtime_mutable()
    }

    fn to_account_infos(&self) -> (r: Vec<usize>) {
        self.account.to_account_infos()
    }

    fn to_account_metas(&self, bank: &Vec<AccountHandle>, is_signer: Option<bool>) -> (r: Vec<
        AccountMeta,
    >) {
        self.account.to_account_metas(bank, is_signer)
    }
}

impl<T: FixedData, A: SingleAccount, P: GetProgramId> SingleAccount for BytemuckAccount<T, A, P> {
    open spec fn index_spec(&self) -> int {
        self.account.index_spec()
    }

    proof fn single(&self, bank_len: int) {
        self.account.single(bank_len);
    }

    fn account_index(&self) -> (r: usize) {
        self.account.account_index()
    }
}

impl<T: FixedData, A: SingleAccount + DecodeAccounts<Arg>, P: GetProgramId, Arg> DecodeAccounts<
    Arg,
> for BytemuckAccount<T, A, P> {
    open spec fn decode_result(
        ctx: AccountsContext,
        bank: Seq<AccountHandle>,
        start: int,
        arg: Arg,
    ) -> AnchorResult<int> {
        A::decode_result(ctx, bank, start, arg)
    }

    open spec fn decoded(
        ctx: AccountsContext,
        bank: Seq<AccountHandle>,
        start: int,
        arg: Arg,
        v: Self,
    ) -> bool {
        A::decoded(ctx, bank, start, arg, v.account)
    }

    open spec fn size_hint_spec() -> (int, Option<int>) {
        A::size_hint_spec()
    }

    fn try_accounts(
        ctx: &AccountsContext,
        bank: &Vec<AccountHandle>,
        cursor: &mut usize,
        arg: Arg,
    ) -> (r: AnchorResult<Self>) {
        match A::try_accounts(ctx, bank, cursor, arg) {
            Ok(a) => Ok(BytemuckAccount { account: a, _data: PhantomData, _program: PhantomData }),
            Err(e) => Err(e),
        }
    }

    fn size_hint() -> (r: (usize, Option<usize>)) {
        A::size_hint()
    }
}

impl<T: FixedData, A: SingleAccount + ValidateAccounts<Arg>, P: GetProgramId, Arg> ValidateAccounts<
    Arg,
> for BytemuckAccount<T, A, P> {
    open spec fn validate_result(
        &self,
        ctx: AccountsContext,
        bank: Seq<AccountHandle>,
        arg: Arg,
    ) -> AnchorResult<()> {
        let h = bank[self.account.index_spec()];
        let disc = T::discriminant_spec();
        if h.owner@ != P::program_id_spec(ctx) {
            Err(AnchorError::InvalidAccountOwner)
        } else if A::mutable() != Flag::False && !h.may_borrow_shared() {
            Err(AnchorError::AccountBorrowFailed)
        } else if h.data@.len() < disc.len() || h.data@.subrange(0, disc.len() as int) != disc {
            Err(AnchorError::InvalidAccountData)
        } else {
            self.account.validate_result(ctx, bank, arg)
        }
    }

    open spec fn validate_post(
        &self,
        ctx: AccountsContext,
        bank: Seq<AccountHandle>,
        arg: Arg,
        new: Self,
        ok: bool,
    ) -> bool {
        let h = bank[self.account.index_spec()];
        let disc = T::discriminant_spec();
        if h.owner@ != P::program_id_spec(ctx) {
            new == *self
        } else if A::mutable() != Flag::False && !h.may_borrow_shared() {
            new == *self
        } else if h.data@.len() < disc.len() || h.data@.subrange(0, disc.len() as int) != disc {
            new == *self
        } else {
            self.account.validate_post(ctx, bank, arg, new.account, ok)
        }
    }

    fn validate(&mut self, ctx: &AccountsContext, bank: &Vec<AccountHandle>, arg: Arg) -> (r:
        AnchorResult<()>) {
        proof {
            self.account.single(bank@.len() as int);
            P::program_id_len(*ctx);
        }
        let idx = self.account.account_index();
        let pid = P::program_id(ctx);
        if !bytes_eq(&bank[idx].owner, &pid) {
            return Err(AnchorError::InvalidAccountOwner);
        }
        let m = A::runtime_mutable();
        if !(m == Flag::False) && bank[idx].exclusive_borrow {
            return Err(AnchorError::AccountBorrowFailed);
        }
        let disc = T::discriminant();
        if !starts_with(&bank[idx].data, &disc) {
            return Err(AnchorError::InvalidAccountData);
        }
        self.account.validate(ctx, bank, arg)
    }
}

impl<T: FixedData, A: SingleAccount + CleanupAccounts<Arg>, P: GetProgramId, Arg> CleanupAccounts<
    Arg,
> for BytemuckAccount<T, A, P> {
    open spec fn cleanup_result(
        &self,
        ctx: AccountsContext,
        bank: Seq<AccountHandle>,
        arg: Arg,
    ) -> AnchorResult<()> {
        self.account.cleanup_result(ctx, bank, arg)
    }

    open spec fn cleaned(
        &self,
        ctx: AccountsContext,
        bank: Seq<AccountHandle>,
        arg: Arg,
        new_bank: Seq<AccountHandle>,
    ) -> bool {
        self.account.cleaned(ctx, bank, arg, new_bank)
    }

    proof fn cleanup_result_frame(
        &self,
        ctx: AccountsContext,
        arg: Arg,
        bank1: Seq<AccountHandle>,
        bank2: Seq<AccountHandle>,
    ) {
        assert forall|i: int| self.account.indices().contains(i) implies bank1[i].same_shape(
            bank2[i],
        ) by {
            assert(self.indices().contains(i));
        }
        self.account.cleanup_result_frame(ctx, arg, bank1, bank2);
    }

    proof fn cleaned_frame(
        &self,
        ctx: AccountsContext,
        arg: Arg,
        bank1: Seq<AccountHandle>,
        new1: Seq<AccountHandle>,
        bank2: Seq<AccountHandle>,
        new2: Seq<AccountHandle>,
    ) {
        assert forall|i: int| self.account.indices().contains(i) implies bank1[i] == bank2[i]
            && new1[i] == new2[i] by {
            assert(self.indices().contains(i));
        }
        self.account.cleaned_frame(ctx, arg, bank1, new1, bank2, new2);
    }

    fn cleanup(&self, ctx: &AccountsContext, bank: &mut Vec<AccountHandle>, arg: Arg) -> (r:
        AnchorResult<()>) {
        self.account.cleanup(ctx, bank, arg)
    }
}

impl<T: FixedData, A: SingleAccount + SupportsConstraint<C>, P: GetProgramId, C> SupportsConstraint<C> for BytemuckAccount<T, A, P> {
    open spec fn early_spec(
        &self,
        constraint: C,
        ctx: AccountsContext,
        bank: Seq<AccountHandle>,
    ) -> AnchorResult<()> {
        self.account.early_spec(constraint, ctx, bank)
    }

    open spec fn late_spec(
        &self,
        constraint: C,
        ctx: AccountsContext,
        bank: Seq<AccountHandle>,
    ) -> AnchorResult<()> {
        self.account.late_spec(constraint, ctx, bank)
    }

    open spec fn constraint_cleanup_spec(
        &self,
        constraint: C,
        ctx: AccountsContext,
        bank: Seq<AccountHandle>,
    ) -> AnchorResult<()> {
        self.account.constraint_cleanup_spec(constraint, ctx, bank)
    }

    fn early_validation(&self, constraint: &C, ctx: &AccountsContext, bank: &Vec<AccountHandle>) -> (r: AnchorResult<()>) {
        self.account.early_validation(constraint, ctx, bank)
    }

    fn late_validation(&self, constraint: &C, ctx: &AccountsContext, bank: &Vec<AccountHandle>) -> (r: AnchorResult<()>) {
        self.account.late_validation(constraint, ctx, bank)
    }

    fn cleanup(&self, constraint: &C, ctx: &AccountsContext, bank: &Vec<AccountHandle>) -> (r:
        AnchorResult<()>) {
        self.account.cleanup(constraint, ctx, bank)
    }
}

} // verus!
