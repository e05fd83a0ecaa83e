use vstd::prelude::*;

use crate::error::{AnchorError, AnchorResult};
use crate::handle::{bank_wf, clone_bytes, AccountHandle, AccountMeta};
use crate::impls::list::{
    constraint_cleanup_prefix_len, early_prefix_len, late_prefix_len,
    lemma_constraint_cleanup_prefix_len, lemma_early_prefix_len, lemma_late_prefix_len,
    array_decode_result, array_decode_result_per, array_decoded, array_decoded_per,
    cleanup_prefix_len, concat_indices, lemma_array_decoded_per_props,
    lemma_array_decoded_per_snoc, lemma_array_decoded_props, lemma_array_decoded_snoc,
    lemma_cleanup_prefix_len, lemma_cleanup_prefix_len_frame, lemma_concat_indices_bounds,
    lemma_concat_indices_congruence, lemma_concat_indices_membership, lemma_concat_indices_no_dup,
    lemma_concat_take_snoc, lemma_validate_prefix_len, pairwise_disjoint, untouched_by_prefix,
    validate_prefix_len,
};
use crate::maybe_bool::Flag;
use crate::traits::account::{
    Accounts, CleanupAccounts, CloneArg, DecodeAccounts, ValidateAccounts,
};
use crate::traits::constraint::SupportsConstraint;
use crate::traits::AccountsContext;

verus! {

/// The fixed-count array combinator: decodes exactly the requested number
/// of homogeneous views, each from one copy of the same argument. An error
/// partway through construction releases every already-built element (the
/// partial list is dropped), so construction is all-or-nothing for the
/// caller. Validate and cleanup apply uniformly to every element,
/// short-circuiting on the first error.
pub struct AccountArray<T>(pub Vec<T>);

impl<T: Accounts> Accounts for AccountArray<T> {
    open spec fn indices(&self) -> Seq<int> {
        concat_indices(self.0@)
    }

    open spec fn wf(&self, bank_len: int) -> bool {
        &&& forall|j: int| 0 <= j < self.0@.len() ==> (#[trigger] self.0@[j]).wf(bank_len)
        &&& pairwise_disjoint(self.0@)
    }

    open spec fn mutable() -> Flag {
        T::mutable()
    }

    open spec fn can_sign() -> Flag {
        T::can_sign()
    }

    proof fn wf_indices(&self, bank_len: int) {
        lemma_concat_indices_bounds(self.0@, bank_len);
        lemma_concat_indices_no_dup(self.0@, bank_len);
    }

    fn runtime_mutable() -> (r: Flag) {
        T::runtime_mutable()
    }

    #[verifier::loop_isolation(false)]
    fn to_account_infos(&self) -> (r: Vec<usize>) {
        let mut out: Vec<usize> = Vec::new();
        let n = self.0.len();
        let mut i: usize = 0;
        proof {
            assert(self.0@.take(0) =~= Seq::<T>::empty());
        }
        while i < n
            invariant
                i <= n,
                n == self.0@.len(),
                out@.len() == concat_indices(self.0@.take(i as int)).len(),
                forall|k: int| 0 <= k < out@.len() ==> #[trigger] out@[k] as int == concat_indices(
                    self.0@.take(i as int),
                )[k],
            decreases n - i,
        {
            let mut elem_infos = self.0[i].to_account_infos();
            proof {
                lemma_concat_take_snoc(self.0@, i as int);
            }
            let m = elem_infos.len();
            let mut j: usize = 0;
            while j < m
                invariant
                    j <= m,
                    i < n == self.0@.len(),
                    m == elem_infos@.len(),
                    elem_infos@.len() == self.0@[i as int].indices().len(),
                    forall|k: int| 0 <= k < elem_infos@.len() ==> #[trigger] elem_infos@[k] as int
                        == self.0@[i as int].indices()[k],
                    out@.len() == concat_indices(self.0@.take(i as int)).len() + j,
                    forall|k: int|
                        0 <= k < concat_indices(self.0@.take(i as int)).len()
                            ==> #[trigger] out@[k] as int == concat_indices(
                            self.0@.take(i as int),
                        )[k],
                    forall|k: int|
                        concat_indices(self.0@.take(i as int)).len() <= k < out@.len()
                            ==> #[trigger] out@[k] as int == self.0@[i as int].indices()[k
                            - concat_indices(self.0@.take(i as int)).len()],
                decreases m - j,
            {
                out.push(elem_infos[j]);
                j = j + 1;
            }
            i = i + 1;
        }
        proof {
            assert(self.0@.take(n as int) =~= self.0@);
        }
        out
    }

    #[verifier::loop_isolation(false)]
    fn to_account_metas(&self, bank: &Vec<AccountHandle>, is_signer: Option<bool>) -> (r: Vec<
        AccountMeta,
    >) {
        let mut out: Vec<AccountMeta> = Vec::new();
        let n = self.0.len();
        let mut i: usize = 0;
        proof {
            assert(self.0@.take(0) =~= Seq::<T>::empty());
        }
        while i < n
            invariant
                i <= n,
                n == self.0@.len(),
                self.wf(bank@.len() as int),
                out@.len() == concat_indices(self.0@.take(i as int)).len(),
                forall|k: int|
                    0 <= k < out@.len() ==> crate::handle::meta_matches(
                        #[trigger] out@[k],
                        bank@[concat_indices(self.0@.take(i as int))[k]],
                        is_signer,
                    ),
            decreases n - i,
        {
            let mut elem_metas = self.0[i].to_account_metas(bank, is_signer);
            proof {
                lemma_concat_take_snoc(self.0@, i as int);
            }
            let m = elem_metas.len();
            let mut j: usize = 0;
            while j < m
                invariant
                    j <= m,
                    i < n == self.0@.len(),
                    m == elem_metas@.len(),
                    elem_metas@.len() == self.0@[i as int].indices().len(),
                    forall|k: int|
                        0 <= k < elem_metas@.len() ==> crate::handle::meta_matches(
                            #[trigger] elem_metas@[k],
                            bank@[self.0@[i as int].indices()[k]],
                            is_signer,
                        ),
                    out@.len() == concat_indices(self.0@.take(i as int)).len() + j,
                    forall|k: int|
                        0 <= k < concat_indices(self.0@.take(i as int)).len()
                            ==> crate::handle::meta_matches(
                            #[trigger] out@[k],
                            bank@[concat_indices(self.0@.take(i as int))[k]],
                            is_signer,
                        ),
                    forall|k: int|
                        concat_indices(self.0@.take(i as int)).len() <= k < out@.len()
                            ==> crate::handle::meta_matches(
                            #[trigger] out@[k],
                            bank@[self.0@[i as int].indices()[k - concat_indices(
                                self.0@.take(i as int),
                            ).len()]],
                            is_signer,
                        ),
                decreases m - j,
            {
                let km = &elem_metas[j];
                let meta = AccountMeta {
                    key: clone_bytes(&km.key),
                    is_signer: km.is_signer,
                    is_writable: km.is_writable,
                };
                out.push(meta);
                j = j + 1;
            }
            i = i + 1;
        }
        proof {
            assert(self.0@.take(n as int) =~= self.0@);
        }
        out
    }
}

impl<T: DecodeAccounts<A>, A: CloneArg> DecodeAccounts<(usize, A)> for AccountArray<T> {
    open spec fn decode_result(
        ctx: AccountsContext,
        bank: Seq<AccountHandle>,
        start: int,
        arg: (usize, A),
    ) -> AnchorResult<int> {
        array_decode_result::<T, A>(ctx, bank, start, arg.1, arg.0 as int)
    }

    open spec fn decoded(
        ctx: AccountsContext,
        bank: Seq<AccountHandle>,
        start: int,
        arg: (usize, A),
        v: Self,
    ) -> bool {
        match array_decode_result::<T, A>(ctx, bank, start, arg.1, arg.0 as int) {
            Ok(n) => v.0@.len() == arg.0 && array_decoded(ctx, bank, start, start + n, arg.1, v.0@),
            Err(_) => false,
        }
    }

    open spec fn size_hint_spec() -> (int, Option<int>) {
        (0, None)
    }

    #[verifier::loop_isolation(false)]
    fn try_accounts(
        ctx: &AccountsContext,
        bank: &Vec<AccountHandle>,
        cursor: &mut usize,
        arg: (usize, A),
    ) -> (r: AnchorResult<Self>) {
        let (count, elem_arg) = arg;
        let mut out: Vec<T> = Vec::new();
        let ghost start0 = *old(cursor) as int;
        let mut i: usize = 0;
        while i < count
            invariant
                i <= count,
                start0 <= *cursor as int <= bank@.len(),
                out@.len() == i,
                array_decoded(*ctx, bank@, start0, *cursor as int, elem_arg, out@),
                (match array_decode_result::<T, A>(
                    *ctx,
                    bank@,
                    *cursor as int,
                    elem_arg,
                    count as int - i as int,
                ) {
                    Ok(m) => array_decode_result::<T, A>(
                        *ctx,
                        bank@,
                        start0,
                        elem_arg,
                        count as int,
                    ) == Ok::<int, AnchorError>((*cursor as int - start0) + m),
                    Err(e) => array_decode_result::<T, A>(
                        *ctx,
                        bank@,
                        start0,
                        elem_arg,
                        count as int,
                    ) == Err::<int, AnchorError>(e),
                }),
            decreases count - i,
        {
            let before = *cursor;
            match T::try_accounts(ctx, bank, cursor, elem_arg.clone_arg()) {
                Err(e) => {
                    return Err(e);
                },
                Ok(v) => {
                    proof {
                        lemma_array_decoded_snoc(
                            *ctx,
                            bank@,
                            start0,
                            before as int,
                            elem_arg,
                            out@,
                            v,
                            *cursor as int - before as int,
                        );
                    }
                    out.push(v);
                },
            }
            i = i + 1;
        }
        proof {
            lemma_array_decoded_props(*ctx, bank@, start0, *cursor as int, elem_arg, out@);
            assert(concat_indices(out@) =~= Seq::new(
                (*cursor as int - start0) as nat,
                |k: int| start0 + k,
            ));
        }
        Ok(AccountArray(out))
    }

    fn size_hint() -> (r: (usize, Option<usize>)) {
        (0, None)
    }
}

impl<T: DecodeAccounts<A>, A> DecodeAccounts<Vec<A>> for AccountArray<T> {
    open spec fn decode_result(
        ctx: AccountsContext,
        bank: Seq<AccountHandle>,
        start: int,
        arg: Vec<A>,
    ) -> AnchorResult<int> {
        array_decode_result_per::<T, A>(ctx, bank, start, arg@)
    }

    open spec fn decoded(
        ctx: AccountsContext,
        bank: Seq<AccountHandle>,
        start: int,
        arg: Vec<A>,
        v: Self,
    ) -> bool {
        match array_decode_result_per::<T, A>(ctx, bank, start, arg@) {
            Ok(n) => array_decoded_per(ctx, bank, start, start + n, arg@, v.0@),
            Err(_) => false,
        }
    }

    open spec fn size_hint_spec() -> (int, Option<int>) {
        (0, None)
    }

    #[verifier::loop_isolation(false)]
    fn try_accounts(
        ctx: &AccountsContext,
        bank: &Vec<AccountHandle>,
        cursor: &mut usize,
        arg: Vec<A>,
    ) -> (r: AnchorResult<Self>) {
        let ghost all_args = arg@;
        let mut args = arg;
        let total = args.len();
        let mut out: Vec<T> = Vec::new();
        let ghost start0 = *old(cursor) as int;
        let mut i: usize = 0;
        proof {
            assert(all_args.take(0) =~= Seq::<A>::empty());
            assert(args@ =~= all_args.skip(0));
        }
        while args.len() > 0
            invariant
                i <= all_args.len(),
                all_args.len() == total as int,
                args@ =~= all_args.skip(i as int),
                start0 <= *cursor as int <= bank@.len(),
                out@.len() == i,
                array_decoded_per(*ctx, bank@, start0, *cursor as int, all_args.take(i as int), out@),
                (match array_decode_result_per::<T, A>(*ctx, bank@, *cursor as int, args@) {
                    Ok(m) => array_decode_result_per::<T, A>(*ctx, bank@, start0, all_args) == Ok::<
                        int,
                        AnchorError,
                    >((*cursor as int - start0) + m),
                    Err(e) => array_decode_result_per::<T, A>(*ctx, bank@, start0, all_args)
                        == Err::<int, AnchorError>(e),
                }),
            decreases args@.len(),
        {
            let before = *cursor;
            let a = args.remove(0);
            let ghost a_spec = a;
            match T::try_accounts(ctx, bank, cursor, a) {
                Err(e) => {
                    return Err(e);
                },
                Ok(v) => {
                    proof {
                        assert(all_args.skip(i as int)[0] == all_args[i as int]);
                        lemma_array_decoded_per_snoc(
                            *ctx,
                            bank@,
                            start0,
                            before as int,
                            all_args.take(i as int),
                            out@,
                            a_spec,
                            v,
                            *cursor as int - before as int,
                        );
                        assert(all_args.take(i as int).push(a_spec) =~= all_args.take(i as int + 1));
                        assert(all_args.skip(i as int).drop_first() =~= all_args.skip(i as int + 1));
                    }
                    out.push(v);
                },
            }
            i = i + 1;
        }
        proof {
            assert(all_args.take(i as int) =~= all_args);
            lemma_array_decoded_per_props(*ctx, bank@, start0, *cursor as int, all_args, out@);
            assert(concat_indices(out@) =~= Seq::new(
                (*cursor as int - start0) as nat,
                |k: int| start0 + k,
            ));
        }
        Ok(AccountArray(out))
    }

    fn size_hint() -> (r: (usize, Option<usize>)) {
        (0, None)
    }
}

impl<T: ValidateAccounts<A>, A: CloneArg> ValidateAccounts<A> for AccountArray<T> {
    open spec fn validate_result(
        &self,
        ctx: AccountsContext,
        bank: Seq<AccountHandle>,
        arg: A,
    ) -> AnchorResult<()> {
        let vpl = validate_prefix_len(self.0@, ctx, bank, arg);
        if vpl == self.0@.len() {
            Ok(())
        } else {
            self.0@[vpl].validate_result(ctx, bank, arg)
        }
    }

    open spec fn validate_post(
        &self,
        ctx: AccountsContext,
        bank: Seq<AccountHandle>,
        arg: A,
        new: Self,
        ok: bool,
    ) -> bool {
        let olds = self.0@;
        let news = new.0@;
        let vpl = validate_prefix_len(olds, ctx, bank, arg);
        &&& news.len() == olds.len()
        &&& forall|j: int|
            0 <= j < vpl ==> olds[j].validate_post(ctx, bank, arg, #[trigger] news[j], true)
        &&& (vpl < olds.len() ==> olds[vpl].validate_post(ctx, bank, arg, news[vpl], false))
        &&& forall|j: int| vpl < j < olds.len() ==> #[trigger] news[j] == olds[j]
    }

    #[verifier::loop_isolation(false)]
    fn validate(&mut self, ctx: &AccountsContext, bank: &Vec<AccountHandle>, arg: A) -> (r:
        AnchorResult<()>) {
        let ghost olds = self.0@;
        proof {
            lemma_validate_prefix_len(olds, *ctx, bank@, arg);
        }
        let n = self.0.len();
        let mut i: usize = 0;
        while i < n
            invariant
                i <= n,
                n == olds.len(),
                self.0@.len() == olds.len(),
                bank_wf(bank@),
                ctx.wf(),
                forall|j: int| i as int <= j < n ==> #[trigger] self.0@[j] == olds[j],
                forall|j: int|
                    0 <= j < i ==> (#[trigger] olds[j]).validate_result(*ctx, bank@, arg) is Ok,
                forall|j: int|
                    0 <= j < i ==> olds[j].validate_post(
                        *ctx,
                        bank@,
                        arg,
                        #[trigger] self.0@[j],
                        true,
                    ),
                forall|j: int|
                    0 <= j < n ==> (#[trigger] self.0@[j]).wf(bank@.len() as int),
                forall|j: int|
                    0 <= j < n ==> (#[trigger] self.0@[j]).indices() == olds[j].indices(),
                pairwise_disjoint(olds),
            decreases n - i,
        {
            let elem = &mut self.0[i];
            let r = elem.validate(ctx, bank, arg.clone_arg());
            match r {
                Err(_) => {
                    proof {
                        lemma_validate_prefix_len(olds, *ctx, bank@, arg);
                        let vpl = validate_prefix_len(olds, *ctx, bank@, arg);
                        if vpl < i as int {
                            assert(olds[vpl].validate_result(*ctx, bank@, arg) is Ok);
                        }
                        if vpl > i as int {
                            assert(olds[i as int].validate_result(*ctx, bank@, arg) is Ok);
                        }
                        assert(vpl == i as int);
                        assert forall|j1: int, j2: int, k: int|
                            0 <= j1 < self.0@.len() && 0 <= j2 < self.0@.len() && j1 != j2 && (
                            #[trigger] self.0@[j1].indices().contains(k)) implies !(
                        #[trigger] self.0@[j2].indices().contains(k)) by {
                            assert(self.0@[j1].indices() == olds[j1].indices());
                            assert(self.0@[j2].indices() == olds[j2].indices());
                        }
                        lemma_concat_indices_congruence(self.0@, olds);
                    }
                    return r;
                },
                Ok(_) => {},
            }
            i = i + 1;
        }
        proof {
            lemma_validate_prefix_len(olds, *ctx, bank@, arg);
            let vpl = validate_prefix_len(olds, *ctx, bank@, arg);
            if vpl < n as int {
                assert(olds[vpl].validate_result(*ctx, bank@, arg) is Ok);
            }
            assert(vpl == n as int);
            assert forall|j1: int, j2: int, k: int|
                0 <= j1 < self.0@.len() && 0 <= j2 < self.0@.len() && j1 != j2 && (
                #[trigger] self.0@[j1].indices().contains(k)) implies !(#[trigger] self.0@[j2].indices().contains(k)) by {
                assert(self.0@[j1].indices() == olds[j1].indices());
                assert(self.0@[j2].indices() == olds[j2].indices());
            }
            lemma_concat_indices_congruence(self.0@, olds);
        }
        Ok(())
    }
}

impl<T: CleanupAccounts<A>, A: CloneArg> CleanupAccounts<A> for AccountArray<T> {
    open spec fn cleanup_result(
        &self,
        ctx: AccountsContext,
        bank: Seq<AccountHandle>,
        arg: A,
    ) -> AnchorResult<()> {
        let cpl = cleanup_prefix_len(self.0@, ctx, bank, arg);
        if cpl == self.0@.len() {
            Ok(())
        } else {
            self.0@[cpl].cleanup_result(ctx, bank, arg)
        }
    }

    open spec fn cleaned(
        &self,
        ctx: AccountsContext,
        bank: Seq<AccountHandle>,
        arg: A,
        new_bank: Seq<AccountHandle>,
    ) -> bool {
        forall|j: int|
            0 <= j < self.0@.len() ==> (#[trigger] self.0@[j]).cleaned(ctx, bank, arg, new_bank)
    }

    proof fn cleanup_result_frame(
        &self,
        ctx: AccountsContext,
        arg: A,
        bank1: Seq<AccountHandle>,
        bank2: Seq<AccountHandle>,
    ) {
        assert forall|j: int, i: int|
            0 <= j < self.0@.len() && (#[trigger] self.0@[j].indices().contains(i)) implies bank1[
            i].same_shape(bank2[i]) by {
            lemma_concat_indices_membership(self.0@, j, i);
            assert(self.indices().contains(i));
        }
        lemma_cleanup_prefix_len_frame(self.0@, ctx, bank1, bank2, arg);
        let cpl1 = cleanup_prefix_len(self.0@, ctx, bank1, arg);
        let cpl2 = cleanup_prefix_len(self.0@, ctx, bank2, arg);
        assert(cpl1 == cpl2);
        if 0 <= cpl1 < self.0@.len() {
            assert(self.0@[cpl1].cleanup_result(ctx, bank1, arg) == self.0@[cpl1].cleanup_result(
                ctx,
                bank2,
                arg,
            ));
        } else {
            lemma_cleanup_prefix_len(self.0@, ctx, bank1, arg);
            lemma_cleanup_prefix_len(self.0@, ctx, bank2, arg);
        }
        assert(self.cleanup_result(ctx, bank1, arg) == self.cleanup_result(ctx, bank2, arg));
    }

    proof fn cleaned_frame(
        &self,
        ctx: AccountsContext,
        arg: A,
        bank1: Seq<AccountHandle>,
        new1: Seq<AccountHandle>,
        bank2: Seq<AccountHandle>,
        new2: Seq<AccountHandle>,
    ) {
        assert forall|j: int| 0 <= j < self.0@.len() implies (#[trigger] self.0@[j]).cleaned(
            ctx,
            bank1,
            arg,
            new1,
        ) == self.0@[j].cleaned(ctx, bank2, arg, new2) by {
            assert forall|i: int| self.0@[j].indices().contains(i) implies bank1[i] == bank2[i]
                && new1[i] == new2[i] by {
                lemma_concat_indices_membership(self.0@, j, i);
                assert(self.indices().contains(i));
            }
            self.0@[j].cleaned_frame(ctx, arg, bank1, new1, bank2, new2);
        }
    }

    #[verifier::loop_isolation(false)]
    fn cleanup(&self, ctx: &AccountsContext, bank: &mut Vec<AccountHandle>, arg: A) -> (r:
        AnchorResult<()>) {
        let ghost bank0 = old(bank)@;
        proof {
            lemma_cleanup_prefix_len(self.0@, *ctx, bank0, arg);
        }
        let n = self.0.len();
        let mut i: usize = 0;
        while i < n
            invariant
                i <= n,
                n == self.0@.len(),
                bank@.len() == bank0.len(),
                bank_wf(bank@),
                ctx.wf(),
                forall|j: int|
                    0 <= j < n ==> (#[trigger] self.0@[j]).wf(bank0.len() as int),
                pairwise_disjoint(self.0@),
                forall|idx: int|
                    0 <= idx < bank0.len() ==> {
                        &&& (#[trigger] bank@[idx]).same_account(bank0[idx])
                        &&& bank@[idx].shared_borrows == bank0[idx].shared_borrows
                        &&& bank@[idx].exclusive_borrow == bank0[idx].exclusive_borrow
                    },
                forall|idx: int|
                    0 <= idx < bank0.len() && untouched_by_prefix(self.0@, i as int, idx)
                        ==> #[trigger] bank@[idx] == bank0[idx],
                forall|j: int|
                    0 <= j < i ==> (#[trigger] self.0@[j]).cleanup_result(*ctx, bank0, arg) is Ok,
                forall|j: int|
                    0 <= j < i ==> (#[trigger] self.0@[j]).cleaned(*ctx, bank0, arg, bank@),
            decreases n - i,
        {
            let ghost bank_before = bank@;
            proof {
                assert forall|idx: int| self.0@[i as int].indices().contains(idx) implies 0 <= idx
                    < bank0.len() && bank_before[idx] == bank0[idx] by {
                    self.0@[i as int].wf_indices(bank0.len() as int);
                    let k = choose|k: int|
                        0 <= k < self.0@[i as int].indices().len() && self.0@[i as int].indices()[k] == idx;
                    assert(untouched_by_prefix(self.0@, i as int, idx));
                }
            }
            let r = self.0[i].cleanup(ctx, bank, arg.clone_arg());
            proof {
                self.0@[i as int].cleanup_result_frame(*ctx, arg, bank_before, bank0);
                self.0@[i as int].cleaned_frame(*ctx, arg, bank_before, bank@, bank0, bank@);
            }
            match r {
                Err(e) => {
                    proof {
                        let cpl = cleanup_prefix_len(self.0@, *ctx, bank0, arg);
                        if cpl < i as int {
                            assert(self.0@[cpl].cleanup_result(*ctx, bank0, arg) is Ok);
                        }
                        if cpl > i as int {
                            assert(self.0@[i as int].cleanup_result(*ctx, bank0, arg) is Ok);
                        }
                        assert(cpl == i as int);
                        assert forall|idx: int|
                            0 <= idx < bank0.len() && !self.indices().contains(idx) implies
                            bank@[idx] == bank0[idx] by {
                            assert forall|j: int| 0 <= j < self.0@.len() implies !(
                            #[trigger] self.0@[j]).indices().contains(idx) by {
                                if self.0@[j].indices().contains(idx) {
                                    lemma_concat_indices_membership(self.0@, j, idx);
                                }
                            }
                        }
                    }
                    return Err(e);
                },
                Ok(_) => {
                    proof {
                        assert forall|j: int| 0 <= j < i as int implies (#[trigger] self.0@[j]).cleaned(*ctx, bank0, arg, bank@) by {
                            assert forall|idx: int| self.0@[j].indices().contains(idx) implies
                                bank_before[idx] == bank@[idx] && bank0[idx] == bank0[idx] by {
                                self.0@[j].wf_indices(bank0.len() as int);
                                let k = choose|k: int|
                                    0 <= k < self.0@[j].indices().len() && self.0@[j].indices()[k] == idx;
                            }
                            self.0@[j].cleaned_frame(*ctx, arg, bank0, bank_before, bank0, bank@);
                        }
                        assert forall|idx: int|
                            0 <= idx < bank0.len() && untouched_by_prefix(
                                self.0@,
                                i as int + 1,
                                idx,
                            ) implies #[trigger] bank@[idx] == bank0[idx] by {
                            assert(untouched_by_prefix(self.0@, i as int, idx));
                            assert(!self.0@[i as int].indices().contains(idx));
                        }
                    }
                    i = i + 1;
                },
            }
        }
        proof {
            let cpl = cleanup_prefix_len(self.0@, *ctx, bank0, arg);
            if cpl < n as int {
                assert(self.0@[cpl].cleanup_result(*ctx, bank0, arg) is Ok);
            }
            assert(cpl == n as int);
            assert forall|idx: int|
                0 <= idx < bank0.len() && !self.indices().contains(idx) implies bank@[idx]
                == bank0[idx] by {
                assert forall|j: int| 0 <= j < self.0@.len() implies !(#[trigger] self.0@[j]).indices().contains(idx) by {
                    if self.0@[j].indices().contains(idx) {
                        lemma_concat_indices_membership(self.0@, j, idx);
                    }
                }
            }
        }
        Ok(())
    }
}

impl<T: SupportsConstraint<C>, C> SupportsConstraint<C> for AccountArray<T> {
    open spec fn early_spec(
        &self,
        constraint: C,
        ctx: AccountsContext,
        bank: Seq<AccountHandle>,
    ) -> AnchorResult<()> {
        let p = early_prefix_len(self.0@, constraint, ctx, bank);
        if p == self.0@.len() {
            Ok(())
        } else {
            self.0@[p].early_spec(constraint, ctx, bank)
        }
    }

    open spec fn late_spec(
        &self,
        constraint: C,
        ctx: AccountsContext,
        bank: Seq<AccountHandle>,
    ) -> AnchorResult<()> {
        let p = late_prefix_len(self.0@, constraint, ctx, bank);
        if p == self.0@.len() {
            Ok(())
        } else {
            self.0@[p].late_spec(constraint, ctx, bank)
        }
    }

    open spec fn constraint_cleanup_spec(
        &self,
        constraint: C,
        ctx: AccountsContext,
        bank: Seq<AccountHandle>,
    ) -> AnchorResult<()> {
        let p = constraint_cleanup_prefix_len(self.0@, constraint, ctx, bank);
        if p == self.0@.len() {
            Ok(())
        } else {
            self.0@[p].constraint_cleanup_spec(constraint, ctx, bank)
        }
    }

    #[verifier::loop_isolation(false)]
    fn early_validation(&self, constraint: &C, ctx: &AccountsContext, bank: &Vec<AccountHandle>) -> (r: AnchorResult<()>) {
        proof {
            lemma_early_prefix_len(self.0@, *constraint, *ctx, bank@);
        }
        let ghost p = early_prefix_len(self.0@, *constraint, *ctx, bank@);
        let n = self.0.len();
        let mut i: usize = 0;
        while i < n
            invariant
                i <= n == self.0@.len(),
                forall|j: int|
                    0 <= j < i ==> (#[trigger] self.0@[j]).early_spec(*constraint, *ctx, bank@)
                        is Ok,
            decreases n - i,
        {
            let r = self.0[i].early_validation(constraint, ctx, bank);
            if r.is_err() {
                proof {
                    if p < i as int {
                        assert(self.0@[p].early_spec(*constraint, *ctx, bank@) is Ok);
                    }
                    if p > i as int {
                        assert(self.0@[i as int].early_spec(*constraint, *ctx, bank@) is Ok);
                    }
                    assert(p == i as int);
                }
                return r;
            }
            i = i + 1;
        }
        proof {
            if p < n as int {
                assert(self.0@[p].early_spec(*constraint, *ctx, bank@) is Ok);
            }
            assert(p == n as int);
        }
        Ok(())
    }

    #[verifier::loop_isolation(false)]
    fn late_validation(&self, constraint: &C, ctx: &AccountsContext, bank: &Vec<AccountHandle>) -> (r: AnchorResult<()>) {
        proof {
            lemma_late_prefix_len(self.0@, *constraint, *ctx, bank@);
        }
        let ghost p = late_prefix_len(self.0@, *constraint, *ctx, bank@);
        let n = self.0.len();
        let mut i: usize = 0;
        while i < n
            invariant
                i <= n == self.0@.len(),
                forall|j: int|
                    0 <= j < i ==> (#[trigger] self.0@[j]).late_spec(*constraint, *ctx, bank@)
                        is Ok,
            decreases n - i,
        {
            let r = self.0[i].late_validation(constraint, ctx, bank);
            if r.is_err() {
                proof {
                    if p < i as int {
                        assert(self.0@[p].late_spec(*constraint, *ctx, bank@) is Ok);
                    }
                    if p > i as int {
                        assert(self.0@[i as int].late_spec(*constraint, *ctx, bank@) is Ok);
                    }
                    assert(p == i as int);
                }
                return r;
            }
            i = i + 1;
        }
        proof {
            if p < n as int {
                assert(self.0@[p].late_spec(*constraint, *ctx, bank@) is Ok);
            }
            assert(p == n as int);
        }
        Ok(())
    }

    #[verifier::loop_isolation(false)]
    fn cleanup(&self, constraint: &C, ctx: &AccountsContext, bank: &Vec<AccountHandle>) -> (r:
        AnchorResult<()>) {
        proof {
            lemma_constraint_cleanup_prefix_len(self.0@, *constraint, *ctx, bank@);
        }
        let ghost p = constraint_cleanup_prefix_len(self.0@, *constraint, *ctx, bank@);
        let n = self.0.len();
        let mut i: usize = 0;
        while i < n
            invariant
                i <= n == self.0@.len(),
                forall|j: int|
                    0 <= j < i ==> (#[trigger] self.0@[j]).constraint_cleanup_spec(
                        *constraint,
                        *ctx,
                        bank@,
                    ) is Ok,
            decreases n - i,
        {
            let r = SupportsConstraint::cleanup(&self.0[i], constraint, ctx, bank);
            if r.is_err() {
                proof {
                    if p < i as int {
                        assert(self.0@[p].constraint_cleanup_spec(*constraint, *ctx, bank@) is Ok);
                    }
                    if p > i as int {
                        assert(self.0@[i as int].constraint_cleanup_spec(*constraint, *ctx, bank@)
                            is Ok);
                    }
                    assert(p == i as int);
                }
                return r;
            }
            i = i + 1;
        }
        proof {
            if p < n as int {
                assert(self.0@[p].constraint_cleanup_spec(*constraint, *ctx, bank@) is Ok);
            }
            assert(p == n as int);
        }
        Ok(())
    }
}

} // verus!
