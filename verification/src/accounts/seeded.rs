use vstd::prelude::*;

use core::marker::PhantomData;

use crate::error::{AnchorError, AnchorResult};
use crate::handle::{bytes_eq, AccountHandle, AccountMeta};
use crate::maybe_bool::Flag;
use crate::traits::account::{
    Accounts, CleanupAccounts, DecodeAccounts, SingleAccount, ValidateAccounts,
};
use crate::traits::program::{CurrentProgram, GetProgramId};
use crate::traits::seeds::{canonical_pda, find_program_address, pda_address, Seeds, SeedsWithBump};
use crate::traits::constraint::SupportsConstraint;
use crate::traits::AccountsContext;

verus! {

/// Annotates a single-account view whose key must be a program-derived
/// address. Validation accepts either a seed list alone (the canonical
/// bump is found by the brute-force search) or a seed list with an
/// explicit bump (a single deterministic derivation); a mismatch with the
/// account's key fails with `InvalidSeeds`. On success the winning seed
/// set and bump are recorded for later signing; the record is absent on a
/// freshly decoded view.
///
/// Its *CanSign* flag is the OR of "the deriving program is the currently
/// executing program" with the wrapped view's own flag: an address derived
/// under the current program's identity can sign internally without an
/// external signature.
pub struct Seeded<T, S, P = CurrentProgram> {
    pub account: T,
    pub seeds: Option<SeedsWithBump<S>>,
    pub _phantom_program: PhantomData<P>,
}

impl<T: Accounts, S, P: GetProgramId> Accounts for Seeded<T, S, P> {
    open spec fn indices(&self) -> Seq<int> {
        self.account.indices()
    }

    open spec fn wf(&self, bank_len: int) -> bool {
        self.account.wf(bank_len)
    }

    open spec fn mutable() -> Flag {
        T::mutable()
    }

    open spec fn can_sign() -> Flag {
        (if P::is_current() {
            Flag::True
        } else {
            Flag::False
        }).or_spec(T::can_sign())
    }

    proof fn wf_indices(&self, bank_len: int) {
        self.account.wf_indices(bank_len);
    }

    fn runtime_mutable() -> (r: Flag) {
        T::runtime_mutable()
    }

    fn to_account_infos(&self) -> (r: Vec<usize>) {
        self.account.to_account_infos()
    }

    fn to_account_metas(&self, bank: &Vec<AccountHandle>, is_signer: Option<bool>) -> (r: Vec<
        AccountMeta,
    >) {
        self.account.to_account_metas(bank, is_signer)
    }
}

impl<T: SingleAccount, S, P: GetProgramId> SingleAccount for Seeded<T, S, P> {
    open spec fn index_spec(&self) -> int {
        self.account.index_spec()
    }

    proof fn single(&self, bank_len: int) {
        self.account.single(bank_len);
    }

    fn account_index(&self) -> (r: usize) {
        self.account.account_index()
    }
}

impl<T: DecodeAccounts<A>, S, P: GetProgramId, A> DecodeAccounts<A> for Seeded<T, S, P> {
    open spec fn decode_result(
        ctx: AccountsContext,
        bank: Seq<AccountHandle>,
        start: int,
        arg: A,
    ) -> AnchorResult<int> {
        T::decode_result(ctx, bank, start, arg)
    }

    open spec fn decoded(
        ctx: AccountsContext,
        bank: Seq<AccountHandle>,
        start: int,
        arg: A,
        v: Self,
    ) -> bool {
        &&& T::decoded(ctx, bank, start, arg, v.account)
        &&& v.seeds is None
    }

    open spec fn size_hint_spec() -> (int, Option<int>) {
        T::size_hint_spec()
    }

    fn try_accounts(
        ctx: &AccountsContext,
        bank: &Vec<AccountHandle>,
        cursor: &mut usize,
        arg: A,
    ) -> (r: AnchorResult<Self>) {
        match T::try_accounts(ctx, bank, cursor, arg) {
            Ok(v) => Ok(
                Seeded { account: v, seeds: None, _phantom_program: PhantomData },
            ),
            Err(e) => Err(e),
        }
    }

    fn size_hint() -> (r: (usize, Option<usize>)) {
        T::size_hint()
    }
}

impl<T: SingleAccount + ValidateAccounts<A>, S: Seeds, P: GetProgramId, A> ValidateAccounts<
    (S, A),
> for Seeded<T, S, P> {
    open spec fn validate_result(
        &self,
        ctx: AccountsContext,
        bank: Seq<AccountHandle>,
        arg: (S, A),
    ) -> AnchorResult<()> {
        match canonical_pda(arg.0.seeds_spec(), P::program_id_spec(ctx)) {
            None => Err(AnchorError::InvalidSeeds),
            Some(found) => {
                if found.0 == bank[self.account.index_spec()].key@ {
                    self.account.validate_result(ctx, bank, arg.1)
                } else {
                    Err(AnchorError::InvalidSeeds)
                }
            },
        }
    }

    open spec fn validate_post(
        &self,
        ctx: AccountsContext,
        bank: Seq<AccountHandle>,
        arg: (S, A),
        new: Self,
        ok: bool,
    ) -> bool {
        match canonical_pda(arg.0.seeds_spec(), P::program_id_spec(ctx)) {
            None => new == *self,
            Some(found) => {
                if found.0 == bank[self.account.index_spec()].key@ {
                    &&& new.seeds == Some(SeedsWithBump { seeds: arg.0, bump: found.1 })
                    &&& self.account.validate_post(ctx, bank, arg.1, new.account, ok)
                } else {
                    new == *self
                }
            },
        }
    }

    fn validate(&mut self, ctx: &AccountsContext, bank: &Vec<AccountHandle>, arg: (S, A)) -> (r:
        AnchorResult<()>) {
        proof {
            self.account.single(bank@.len() as int);
            P::program_id_len(*ctx);
        }
        let (s, inner_arg) = arg;
        let pid = P::program_id(ctx);
        let seed_vecs = s.seeds();
        match find_program_address(&seed_vecs, &pid) {
            None => Err(AnchorError::InvalidSeeds),
            Some(found) => {
                let idx = self.account.account_index();
                if bytes_eq(&found.0, &bank[idx].key) {
                    self.seeds = Some(SeedsWithBump { seeds: s, bump: found.1 });
                    self.account.validate(ctx, bank, inner_arg)
                } else {
                    Err(AnchorError::InvalidSeeds)
                }
            },
        }
    }
}

impl<T: SingleAccount + ValidateAccounts<A>, S: Seeds, P: GetProgramId, A> ValidateAccounts<
    (SeedsWithBump<S>, A),
> for Seeded<T, S, P> {
    open spec fn validate_result(
        &self,
        ctx: AccountsContext,
        bank: Seq<AccountHandle>,
        arg: (SeedsWithBump<S>, A),
    ) -> AnchorResult<()> {
        match pda_address(arg.0.seeds.seeds_spec(), arg.0.bump, P::program_id_spec(ctx)) {
            None => Err(AnchorError::InvalidSeeds),
            Some(addr) => {
                if addr == bank[self.account.index_spec()].key@ {
                    self.account.validate_result(ctx, bank, arg.1)
                } else {
                    Err(AnchorError::InvalidSeeds)
                }
            },
        }
    }

    open spec fn validate_post(
        &self,
        ctx: AccountsContext,
        bank: Seq<AccountHandle>,
        arg: (SeedsWithBump<S>, A),
        new: Self,
        ok: bool,
    ) -> bool {
        match pda_address(arg.0.seeds.seeds_spec(), arg.0.bump, P::program_id_spec(ctx)) {
            None => new == *self,
            Some(addr) => {
                if addr == bank[self.account.index_spec()].key@ {
                    &&& new.seeds == Some(arg.0)
                    &&& self.account.validate_post(ctx, bank, arg.1, new.account, ok)
                } else {
                    new == *self
                }
            },
        }
    }

    fn validate(
        &mut self,
        ctx: &AccountsContext,
        bank: &Vec<AccountHandle>,
        arg: (SeedsWithBump<S>, A),
    ) -> (r: AnchorResult<()>) {
        proof {
            self.account.single(bank@.len() as int);
            P::program_id_len(*ctx);
        }
        let (sb, inner_arg) = arg;
        let pid = P::program_id(ctx);
        match sb.create_program_address(&pid) {
            Err(e) => Err(e),
            Ok(addr) => {
                let idx = self.account.account_index();
                if bytes_eq(&addr, &bank[idx].key) {
                    self.seeds = Some(sb);
                    self.account.validate(ctx, bank, inner_arg)
                } else {
                    Err(AnchorError::InvalidSeeds)
                }
            },
        }
    }
}


impl<T: SingleAccount + ValidateAccounts<()>, S: Seeds, P: GetProgramId> ValidateAccounts<
    S,
> for Seeded<T, S, P> {
    open spec fn validate_result(
        &self,
        ctx: AccountsContext,
        bank: Seq<AccountHandle>,
        arg: S,
    ) -> AnchorResult<()> {
        <Self as ValidateAccounts<(S, ())>>::validate_result(self, ctx, bank, (arg, ()))
    }

    open spec fn validate_post(
        &self,
        ctx: AccountsContext,
        bank: Seq<AccountHandle>,
        arg: S,
        new: Self,
        ok: bool,
    ) -> bool {
        <Self as ValidateAccounts<(S, ())>>::validate_post(self, ctx, bank, (arg, ()), new, ok)
    }

    fn validate(&mut self, ctx: &AccountsContext, bank: &Vec<AccountHandle>, arg: S) -> (r:
        AnchorResult<()>) {
        <Self as ValidateAccounts<(S, ())>>::validate(self, ctx, bank, (arg, ()))
    }
}

impl<T: SingleAccount + ValidateAccounts<()>, S: Seeds, P: GetProgramId> ValidateAccounts<
    SeedsWithBump<S>,
> for Seeded<T, S, P> {
    open spec fn validate_result(
        &self,
        ctx: AccountsContext,
        bank: Seq<AccountHandle>,
        arg: SeedsWithBump<S>,
    ) -> AnchorResult<()> {
        <Self as ValidateAccounts<(SeedsWithBump<S>, ())>>::validate_result(
            self,
            ctx,
            bank,
            (arg, ()),
        )
    }

    open spec fn validate_post(
        &self,
        ctx: AccountsContext,
        bank: Seq<AccountHandle>,
        arg: SeedsWithBump<S>,
        new: Self,
        ok: bool,
    ) -> bool {
        <Self as ValidateAccounts<(SeedsWithBump<S>, ())>>::validate_post(
            self,
            ctx,
            bank,
            (arg, ()),
            new,
            ok,
        )
    }

    fn validate(&mut self, ctx: &AccountsContext, bank: &Vec<AccountHandle>, arg: SeedsWithBump<
        S,
    >) -> (r: AnchorResult<()>) {
        <Self as ValidateAccounts<(SeedsWithBump<S>, ())>>::validate(self, ctx, bank, (arg, ()))
    }
}

impl<T: CleanupAccounts<A>, S, P: GetProgramId, A> CleanupAccounts<A> for Seeded<T, S, P> {
    open spec fn cleanup_result(
        &self,
        ctx: AccountsContext,
        bank: Seq<AccountHandle>,
        arg: A,
    ) -> AnchorResult<()> {
        self.account.cleanup_result(ctx, bank, arg)
    }

    open spec fn cleaned(
        &self,
        ctx: AccountsContext,
        bank: Seq<AccountHandle>,
        arg: A,
        new_bank: Seq<AccountHandle>,
    ) -> bool {
        self.account.cleaned(ctx, bank, arg, new_bank)
    }

    proof fn cleanup_result_frame(
        &self,
        ctx: AccountsContext,
        arg: A,
        bank1: Seq<AccountHandle>,
        bank2: Seq<AccountHandle>,
    ) {
        assert forall|i: int| self.account.indices().contains(i) implies bank1[i].same_shape(
            bank2[i],
        ) by {
            assert(self.indices().contains(i));
        }
        self.account.cleanup_result_frame(ctx, arg, bank1, bank2);
    }

    proof fn cleaned_frame(
        &self,
        ctx: AccountsContext,
        arg: A,
        bank1: Seq<AccountHandle>,
        new1: Seq<AccountHandle>,
        bank2: Seq<AccountHandle>,
        new2: Seq<AccountHandle>,
    ) {
        assert forall|i: int| self.account.indices().contains(i) implies bank1[i] == bank2[i]
            && new1[i] == new2[i] by {
            assert(self.indices().contains(i));
        }
        self.account.cleaned_frame(ctx, arg, bank1, new1, bank2, new2);
    }

    fn cleanup(&self, ctx: &AccountsContext, bank: &mut Vec<AccountHandle>, arg: A) -> (r:
        AnchorResult<()>) {
        self.account.cleanup(ctx, bank, arg)
    }
}

impl<T: SupportsConstraint<C>, S, P: GetProgramId, C> SupportsConstraint<C> for Seeded<T, S, P> {
    open spec fn early_spec(
        &self,
        constraint: C,
        ctx: AccountsContext,
        bank: Seq<AccountHandle>,
    ) -> AnchorResult<()> {
        self.account.early_spec(constraint, ctx, bank)
    }

    open spec fn late_spec(
        &self,
        constraint: C,
        ctx: AccountsContext,
        bank: Seq<AccountHandle>,
    ) -> AnchorResult<()> {
        self.account.late_spec(constraint, ctx, bank)
    }

    open spec fn constraint_cleanup_spec(
        &self,
        constraint: C,
        ctx: AccountsContext,
        bank: Seq<AccountHandle>,
    ) -> AnchorResult<()> {
        self.account.constraint_cleanup_spec(constraint, ctx, bank)
    }

    fn early_validation(&self, constraint: &C, ctx: &AccountsContext, bank: &Vec<AccountHandle>) -> (r: AnchorResult<()>) {
        self.account.early_validation(constraint, ctx, bank)
    }

    fn late_validation(&self, constraint: &C, ctx: &AccountsContext, bank: &Vec<AccountHandle>) -> (r: AnchorResult<()>) {
        self.account.late_validation(constraint, ctx, bank)
    }

    fn cleanup(&self, constraint: &C, ctx: &AccountsContext, bank: &Vec<AccountHandle>) -> (r:
        AnchorResult<()>) {
        self.account.cleanup(constraint, ctx, bank)
    }
}

/// Validation of a seeded view is not idempotent in its argument: a second
/// validation with a different seed list re-derives and replaces the stored
/// derived-address record with the later derivation, whatever record the
/// first validation left behind.
pub proof fn lemma_seeded_revalidation<
    T: SingleAccount + ValidateAccounts<()>,
    S: Seeds,
    P: GetProgramId,
>(
    ctx: AccountsContext,
    bank: Seq<AccountHandle>,
    v1: Seeded<T, S, P>,
    v2: Seeded<T, S, P>,
    s2: S,
)
    requires
        v1.validate_result(ctx, bank, (s2, ())) is Ok,
        v1.validate_post(ctx, bank, (s2, ()), v2, true),
    ensures
        canonical_pda(s2.seeds_spec(), P::program_id_spec(ctx)) is Some,
        v2.seeds == Some(
            SeedsWithBump {
                seeds: s2,
                bump: canonical_pda(s2.seeds_spec(), P::program_id_spec(ctx))->Some_0.1,
            },
        ),
{
}

} // verus!
