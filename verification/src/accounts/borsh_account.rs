use vstd::prelude::*;

use core::marker::PhantomData;

use crate::accounts::mutable::ReadOnly;
use crate::error::{AnchorError, AnchorResult};
use crate::handle::{bytes_eq, copy_tail, overwrite_prefix, starts_with, AccountHandle, AccountMeta};
use crate::impls::account_info::AccountInfo;
use crate::maybe_bool::Flag;
use crate::traits::account::{
    Accounts, CleanupAccounts, DecodeAccounts, SingleAccount, ValidateAccounts,
};
use crate::traits::account_data::AccountData;
use crate::traits::program::{CurrentProgram, GetProgramId};
use crate::traits::constraint::SupportsConstraint;
use crate::traits::AccountsContext;

verus! {

/// A deserialized, owned copy of a tagged variable-length payload over a
/// single account.
///
/// Decode verifies the discriminant tag and deserializes the remainder into
/// an owned value; when the wrapper is statically read-only the buffer is
/// read without a dynamic borrow check, otherwise a conflicting outstanding
/// exclusive borrow fails the decode. Validate checks that the account is
/// owned by `P`. Cleanup writes the tag and the (possibly mutated) value
/// back over the buffer when the *Mutable* flag is known true or unknown
/// and the handle is dynamically writable; a non-writable handle is left
/// untouched.
pub struct BorshAccount<T, A = ReadOnly<AccountInfo>, P = CurrentProgram> {
    pub data: T,
    pub account: A,
    pub _program: PhantomData<P>,
}

impl<T: AccountData, A: SingleAccount, P: GetProgramId> Accounts for BorshAccount<T, A, P> {
    open spec fn indices(&self) -> Seq<int> {
        self.account.indices()
    }

    open spec fn wf(&self, bank_len: int) -> bool {
        self.account.wf(bank_len)
    }

    open spec fn mutable() -> Flag {
        A::mutable()
    }

    open spec fn can_sign() -> Flag {
        A::can_sign()
    }

    proof fn wf_indices(&self, bank_len: int) {
        self.account.wf_indices(bank_len);
    }

    fn runtime_mutable() -> (r: Flag) {
        A::runtime_mutable()
    }

    fn to_account_infos(&self) -> (r: Vec<usize>) {
        self.account.to_account_infos()
    }

    fn to_account_metas(&self, bank: &Vec<AccountHandle>, is_signer: Option<bool>) -> (r: Vec<
        AccountMeta,
    >) {
        self.account.to_account_metas(bank, is_signer)
    }
}

impl<T: AccountData, A: SingleAccount, P: GetProgramId> SingleAccount for BorshAccount<T, A, P> {
    open spec fn index_spec(&self) -> int {
        self.account.index_spec()
    }

    proof fn single(&self, bank_len: int) {
        self.account.single(bank_len);
    }

    fn account_index(&self) -> (r: usize) {
        self.account.account_index()
    }
}

impl<T: AccountData, A: SingleAccount + DecodeAccounts<Arg>, P: GetProgramId, Arg> DecodeAccounts<
    Arg,
> for BorshAccount<T, A, P> {
    open spec fn decode_result(
        ctx: AccountsContext,
        bank: Seq<AccountHandle>,
        start: int,
        arg: Arg,
    ) -> AnchorResult<int> {
        match A::decode_result(ctx, bank, start, arg) {
            Err(e) => Err(e),
            Ok(n) => {
                let h = bank[start];
                let disc = T::discriminant_spec();
                if A::mutable() != Flag::False && !h.may_borrow_shared() {
                    Err(AnchorError::AccountBorrowFailed)
                } else if h.data@.len() < disc.len() || h.data@.subrange(0, disc.len() as int)
                    != disc {
                    Err(AnchorError::InvalidAccountData)
                } else if !T::decodable(h.data@.skip(disc.len() as int)) {
                    Err(AnchorError::InvalidAccountData)
                } else {
                    Ok(n)
                }
            },
        }
    }

    open spec fn decoded(
        ctx: AccountsContext,
        bank: Seq<AccountHandle>,
        start: int,
        arg: Arg,
        v: Self,
    ) -> bool {
        &&& A::decoded(ctx, bank, start, arg, v.account)
        &&& v.data.encoding() == bank[start].data@.skip(T::discriminant_spec().len() as int)
    }

    open spec fn size_hint_spec() -> (int, Option<int>) {
        A::size_hint_spec()
    }

    fn try_accounts(
        ctx: &AccountsContext,
        bank: &Vec<AccountHandle>,
        cursor: &mut usize,
        arg: Arg,
    ) -> (r: AnchorResult<Self>) {
        let before = *cursor;
        let acc = match A::try_accounts(ctx, bank, cursor, arg) {
            Ok(a) => a,
            Err(e) => {
                return Err(e);
            },
        };
        proof {
            acc.single(bank@.len() as int);
            assert(acc.indices()[0] == acc.index_spec());
            assert(acc.index_spec() == before as int);
        }
        let idx = acc.account_index();
        let m = A::runtime_mutable();
        let data_ref: &Vec<u8> = if m == Flag::False {
            &bank[idx].data
        } else {
            match bank[idx].try_borrow_data() {
                Ok(d) => d,
                Err(e) => {
                    return Err(e);
                },
            }
        };
        let disc = T::discriminant();
        if !starts_with(data_ref, &disc) {
            return Err(AnchorError::InvalidAccountData);
        }
        let payload = copy_tail(data_ref, disc.len());
        match T::try_from_slice(payload.as_slice()) {
            Ok(d) => Ok(BorshAccount { data: d, account: acc, _program: PhantomData }),
            Err(e) => Err(e),
        }
    }

    fn size_hint() -> (r: (usize, Option<usize>)) {
        A::size_hint()
    }
}

impl<T: AccountData, A: SingleAccount + ValidateAccounts<Arg>, P: GetProgramId, Arg> ValidateAccounts<
    Arg,
> for BorshAccount<T, A, P> {
    open spec fn validate_result(
        &self,
        ctx: AccountsContext,
        bank: Seq<AccountHandle>,
        arg: Arg,
    ) -> AnchorResult<()> {
        if bank[self.account.index_spec()].owner@ != P::program_id_spec(ctx) {
            Err(AnchorError::InvalidAccountOwner)
        } else {
            self.account.validate_result(ctx, bank, arg)
        }
    }

    open spec fn validate_post(
        &self,
        ctx: AccountsContext,
        bank: Seq<AccountHandle>,
        arg: Arg,
        new: Self,
        ok: bool,
    ) -> bool {
        if bank[self.account.index_spec()].owner@ != P::program_id_spec(ctx) {
            new == *self
        } else {
            &&& new.data == self.data
            &&& self.account.validate_post(ctx, bank, arg, new.account, ok)
        }
    }

    fn validate(&mut self, ctx: &AccountsContext, bank: &Vec<AccountHandle>, arg: Arg) -> (r:
        AnchorResult<()>) {
        proof {
            self.account.single(bank@.len() as int);
            P::program_id_len(*ctx);
        }
        let idx = self.account.account_index();
        let pid = P::program_id(ctx);
        if !bytes_eq(&bank[idx].owner, &pid) {
            return Err(AnchorError::InvalidAccountOwner);
        }
        self.account.validate(ctx, bank, arg)
    }
}

impl<T: AccountData, A: SingleAccount + CleanupAccounts<Arg>, P: GetProgramId, Arg> CleanupAccounts<
    Arg,
> for BorshAccount<T, A, P> {
    open spec fn cleanup_result(
        &self,
        ctx: AccountsContext,
        bank: Seq<AccountHandle>,
        arg: Arg,
    ) -> AnchorResult<()> {
        let h = bank[self.account.index_spec()];
        let disc = T::discriminant_spec();
        let enc = self.data.encoding();
        if A::mutable() != Flag::False && h.is_writable {
            if !h.may_borrow_exclusive() {
                Err(AnchorError::AccountBorrowFailed)
            } else if disc.len() + enc.len() > h.data@.len() {
                Err(AnchorError::InvalidAccountData)
            } else {
                self.account.cleanup_result(ctx, bank, arg)
            }
        } else {
            self.account.cleanup_result(ctx, bank, arg)
        }
    }

    open spec fn cleaned(
        &self,
        ctx: AccountsContext,
        bank: Seq<AccountHandle>,
        arg: Arg,
        new_bank: Seq<AccountHandle>,
    ) -> bool {
        let idx = self.account.index_spec();
        let h = bank[idx];
        let disc = T::discriminant_spec();
        let enc = self.data.encoding();
        if A::mutable() != Flag::False && h.is_writable {
            exists|mid: Seq<AccountHandle>|
                {
                    &&& #[trigger] mid.len() == bank.len()
                    &&& (forall|k: int| 0 <= k < bank.len() && k != idx ==> mid[k] == bank[k])
                    &&& mid[idx].same_account(h)
                    &&& mid[idx].shared_borrows == h.shared_borrows
                    &&& mid[idx].exclusive_borrow == h.exclusive_borrow
                    &&& mid[idx].data@ == disc + enc + h.data@.skip((disc.len() + enc.len()) as int)
                    &&& self.account.cleaned(ctx, mid, arg, new_bank)
                }
        } else {
            self.account.cleaned(ctx, bank, arg, new_bank)
        }
    }

    proof fn cleanup_result_frame(
        &self,
        ctx: AccountsContext,
        arg: Arg,
        bank1: Seq<AccountHandle>,
        bank2: Seq<AccountHandle>,
    ) {
        self.account.single(bank1.len() as int);
        let idx = self.account.index_spec();
        assert(self.indices().contains(idx)) by {
            assert(self.indices()[0] == idx);
        }
        assert(bank1[idx].same_shape(bank2[idx]));
        assert forall|i: int| self.account.indices().contains(i) implies bank1[i].same_shape(
            bank2[i],
        ) by {
            assert(self.indices().contains(i));
        }
        self.account.cleanup_result_frame(ctx, arg, bank1, bank2);
    }

    proof fn cleaned_frame(
        &self,
        ctx: AccountsContext,
        arg: Arg,
        bank1: Seq<AccountHandle>,
        new1: Seq<AccountHandle>,
        bank2: Seq<AccountHandle>,
        new2: Seq<AccountHandle>,
    ) {
        self.account.single(bank1.len() as int);
        let idx = self.account.index_spec();
        assert(self.indices().contains(idx)) by {
            assert(self.indices()[0] == idx);
        }
        assert(bank1[idx] == bank2[idx]);
        let h = bank1[idx];
        let disc = T::discriminant_spec();
        let enc = self.data.encoding();
        if A::mutable() != Flag::False && h.is_writable {
            assert(self.cleaned(ctx, bank1, arg, new1) ==> self.cleaned(ctx, bank2, arg, new2))
                by {
                if self.cleaned(ctx, bank1, arg, new1) {
                    let mid = choose|mid: Seq<AccountHandle>|
                        {
                            &&& #[trigger] mid.len() == bank1.len()
                            &&& (forall|k: int|
                                0 <= k < bank1.len() && k != idx ==> mid[k] == bank1[k])
                            &&& mid[idx].same_account(h)
                            &&& mid[idx].shared_borrows == h.shared_borrows
                            &&& mid[idx].exclusive_borrow == h.exclusive_borrow
                            &&& mid[idx].data@ == disc + enc + h.data@.skip(
                                (disc.len() + enc.len()) as int,
                            )
                            &&& self.account.cleaned(ctx, mid, arg, new1)
                        };
                    let mid2 = bank2.map(
                        |k: int, hh: AccountHandle|
                            if k == idx {
                                mid[idx]
                            } else {
                                hh
                            },
                    );
                    assert(mid2.len() == bank2.len());
                    assert(mid2[idx] == mid[idx]);
                    assert forall|i: int| self.account.indices().contains(i) implies mid[i]
                        == mid2[i] && new1[i] == new2[i] by {
                        assert(self.indices().contains(i));
                        assert(i == idx);
                    }
                    self.account.cleaned_frame(ctx, arg, mid, new1, mid2, new2);
                }
            }
            assert(self.cleaned(ctx, bank2, arg, new2) ==> self.cleaned(ctx, bank1, arg, new1))
                by {
                if self.cleaned(ctx, bank2, arg, new2) {
                    let mid = choose|mid: Seq<AccountHandle>|
                        {
                            &&& #[trigger] mid.len() == bank2.len()
                            &&& (forall|k: int|
                                0 <= k < bank2.len() && k != idx ==> mid[k] == bank2[k])
                            &&& mid[idx].same_account(h)
                            &&& mid[idx].shared_borrows == h.shared_borrows
                            &&& mid[idx].exclusive_borrow == h.exclusive_borrow
                            &&& mid[idx].data@ == disc + enc + h.data@.skip(
                                (disc.len() + enc.len()) as int,
                            )
                            &&& self.account.cleaned(ctx, mid, arg, new2)
                        };
                    let mid1 = bank1.map(
                        |k: int, hh: AccountHandle|
                            if k == idx {
                                mid[idx]
                            } else {
                                hh
                            },
                    );
                    assert(mid1.len() == bank1.len());
                    assert(mid1[idx] == mid[idx]);
                    assert forall|i: int| self.account.indices().contains(i) implies mid[i]
                        == mid1[i] && new2[i] == new1[i] by {
                        assert(self.indices().contains(i));
                        assert(i == idx);
                    }
                    self.account.cleaned_frame(ctx, arg, mid, new2, mid1, new1);
                }
            }
        } else {
            assert forall|i: int| self.account.indices().contains(i) implies bank1[i] == bank2[i]
                && new1[i] == new2[i] by {
                assert(self.indices().contains(i));
            }
            self.account.cleaned_frame(ctx, arg, bank1, new1, bank2, new2);
        }
    }

    fn cleanup(&self, ctx: &AccountsContext, bank: &mut Vec<AccountHandle>, arg: Arg) -> (r:
        AnchorResult<()>) {
        proof {
            self.account.single(old(bank)@.len() as int);
        }
        let idx = self.account.account_index();
        let m = A::runtime_mutable();
        if !(m == Flag::False) && bank[idx].is_writable {
            if bank[idx].exclusive_borrow || bank[idx].shared_borrows != 0 {
                return Err(AnchorError::AccountBorrowFailed);
            }
            let disc = T::discriminant();
            let enc = self.data.serialize();
            if disc.len() > bank[idx].data.len() || enc.len() > bank[idx].data.len() - disc.len() {
                return Err(AnchorError::InvalidAccountData);
            }
            let new_data = overwrite_prefix(&bank[idx].data, &disc, &enc);
            let h = &mut bank[idx];
            h.data = new_data;
            let ghost mid = bank@;
            proof {
                assert(self.indices().contains(idx as int)) by {
                    assert(self.indices()[0] == idx as int);
                }
                assert(mid[idx as int].same_account(old(bank)@[idx as int]));
                assert forall|i: int| self.account.indices().contains(i) implies mid[i].same_shape(old(bank)@[i]) by {
                    assert(self.indices().contains(i));
                    assert(i == idx as int);
                }
                self.account.cleanup_result_frame(*ctx, arg, mid, old(bank)@);
            }
            let r = self.account.cleanup(ctx, bank, arg);
            proof {
                if r is Ok {
                    assert(self.cleaned(*ctx, old(bank)@, arg, bank@)) by {
                        assert(self.account.cleaned(*ctx, mid, arg, bank@));
                    }
                }
            }
            r
        } else {
            self.account.cleanup(ctx, bank, arg)
        }
    }
}

impl<T: AccountData, A: SingleAccount + SupportsConstraint<C>, P: GetProgramId, C> SupportsConstraint<C> for BorshAccount<T, A, P> {
    open spec fn early_spec(
        &self,
        constraint: C,
        ctx: AccountsContext,
        bank: Seq<AccountHandle>,
    ) -> AnchorResult<()> {
        self.account.early_spec(constraint, ctx, bank)
    }

    open spec fn late_spec(
        &self,
        constraint: C,
        ctx: AccountsContext,
        bank: Seq<AccountHandle>,
    ) -> AnchorResult<()> {
        self.account.late_spec(constraint, ctx, bank)
    }

    open spec fn constraint_cleanup_spec(
        &self,
        constraint: C,
        ctx: AccountsContext,
        bank: Seq<AccountHandle>,
    ) -> AnchorResult<()> {
        self.account.constraint_cleanup_spec(constraint, ctx, bank)
    }

    fn early_validation(&self, constraint: &C, ctx: &AccountsContext, bank: &Vec<AccountHandle>) -> (r: AnchorResult<()>) {
        self.account.early_validation(constraint, ctx, bank)
    }

    fn late_validation(&self, constraint: &C, ctx: &AccountsContext, bank: &Vec<AccountHandle>) -> (r: AnchorResult<()>) {
        self.account.late_validation(constraint, ctx, bank)
    }

    fn cleanup(&self, constraint: &C, ctx: &AccountsContext, bank: &Vec<AccountHandle>) -> (r:
        AnchorResult<()>) {
        self.account.cleanup(constraint, ctx, bank)
    }
}

/// Round trip: decoding a tagged variable-length payload and cleaning it
/// up with the value unchanged leaves the buffer byte-for-byte as it was,
/// whatever the handle's writable flag. The codec's exactness makes the
/// written tag and payload coincide with the original prefix, and nothing
/// past the payload is touched.
pub proof fn lemma_borsh_round_trip<T: AccountData, P: GetProgramId>(
    ctx: AccountsContext,
    bank: Seq<AccountHandle>,
    start: int,
    v: BorshAccount<T, crate::accounts::mutable::Mut<AccountInfo>, P>,
    new_bank: Seq<AccountHandle>,
)
    requires
        0 <= start < bank.len(),
        <BorshAccount<T, crate::accounts::mutable::Mut<AccountInfo>, P> as DecodeAccounts<()>>::decode_result(
            ctx,
            bank,
            start,
            (),
        ) is Ok,
        <BorshAccount<T, crate::accounts::mutable::Mut<AccountInfo>, P> as DecodeAccounts<()>>::decoded(
            ctx,
            bank,
            start,
            (),
            v,
        ),
        v.cleaned(ctx, bank, (), new_bank),
        new_bank.len() == bank.len(),
    ensures
        new_bank[start].data@ == bank[start].data@,
{
    let disc = T::discriminant_spec();
    let h = bank[start];
    assert(v.account.index_spec() == start);
    assert(v.data.encoding() == h.data@.skip(disc.len() as int));
    let enc = v.data.encoding();
    if h.is_writable {
        let idx = start;
        let mid = choose|mid: Seq<AccountHandle>|
            {
                &&& #[trigger] mid.len() == bank.len()
                &&& (forall|k: int| 0 <= k < bank.len() && k != idx ==> mid[k] == bank[k])
                &&& mid[idx].same_account(h)
                &&& mid[idx].shared_borrows == h.shared_borrows
                &&& mid[idx].exclusive_borrow == h.exclusive_borrow
                &&& mid[idx].data@ == disc + enc + h.data@.skip((disc.len() + enc.len()) as int)
                &&& v.account.cleaned(ctx, mid, (), new_bank)
            };
        assert(h.data@.subrange(0, disc.len() as int) == disc);
        assert(disc + enc =~= h.data@);
        assert(h.data@.skip((disc.len() + enc.len()) as int) =~= Seq::<u8>::empty());
        assert(mid[idx].data@ =~= h.data@);
        assert(new_bank[start].data@ == mid[idx].data@);
    } else {
        assert(new_bank[start].data@ == bank[start].data@);
    }
}

} // verus!
