use vstd::prelude::*;

use crate::error::{AnchorError, AnchorResult};
use crate::handle::{bank_wf, meta_matches, AccountHandle, AccountMeta};
use crate::maybe_bool::Flag;
use crate::traits::AccountsContext;

verus! {

/// Common protocol of every typed account view.
///
/// A view wraps zero or more handles of the invocation's account list (the
/// "bank", a `Vec<AccountHandle>` owned by the caller) and records their
/// positions. It advertises static knowledge of two capabilities: whether
/// the wrapped buffers may be written (*Mutable*) and whether the wrapped
/// accounts can sign (*CanSign*). `Unknown` means every dependent check must
/// be performed dynamically.
pub trait Accounts: Sized {
    /// Positions in the bank reachable from this view, in export order.
    spec fn indices(&self) -> Seq<int>;

    /// Structural well-formedness against a bank of the given length.
    spec fn wf(&self, bank_len: int) -> bool;

    /// Static knowledge of the *Mutable* capability.
    spec fn mutable() -> Flag;

    /// Static knowledge of the *CanSign* capability.
    spec fn can_sign() -> Flag;

    /// A well-formed view reaches only distinct in-range positions.
    proof fn wf_indices(&self, bank_len: int)
        requires
            self.wf(bank_len),
        ensures
            forall|k: int|
                0 <= k < self.indices().len() ==> 0 <= #[trigger] self.indices()[k] < bank_len,
            self.indices().no_duplicates(),
    ;

    /// The *Mutable* capability as a runtime value.
    fn runtime_mutable() -> (r: Flag)
        ensures
            r == Self::mutable(),
    ;

    /// Export the reachable handle positions, in export order.
    fn to_account_infos(&self) -> (r: Vec<usize>)
        ensures
            r@.len() == self.indices().len(),
            forall|k: int| 0 <= k < r@.len() ==> #[trigger] r@[k] as int == self.indices()[k],
    ;

    /// Export account metadata for an outbound instruction, in the same
    /// order as `to_account_infos`, optionally overriding the signer flag.
    fn to_account_metas(&self, bank: &Vec<AccountHandle>, is_signer: Option<bool>) -> (r: Vec<
        AccountMeta,
    >)
        requires
            self.wf(bank@.len() as int),
        ensures
            r@.len() == self.indices().len(),
            forall|k: int|
                0 <= k < r@.len() ==> meta_matches(
                    #[trigger] r@[k],
                    bank@[self.indices()[k]],
                    is_signer,
                ),
    ;
}

/// A view that wraps exactly one handle.
pub trait SingleAccount: Accounts {
    /// The position of the wrapped handle.
    spec fn index_spec(&self) -> int;

    /// A well-formed single-account view reaches exactly its one position.
    proof fn single(&self, bank_len: int)
        requires
            self.wf(bank_len),
        ensures
            self.indices() =~= seq![self.index_spec()],
            0 <= self.index_spec() < bank_len,
    ;

    /// The position of the wrapped handle as a runtime value.
    fn account_index(&self) -> (r: usize)
        ensures
            r as int == self.index_spec(),
    ;
}

/// Structural decoding: consume handles from the front of the remaining
/// sequence and build the typed view.
///
/// The same cursor is threaded through nested calls, so siblings never see
/// already-consumed handles. Decoding is structural only; semantic checks
/// belong to `ValidateAccounts`.
pub trait DecodeAccounts<A>: Accounts {
    /// Whether decoding succeeds at `start`, and how many handles it
    /// consumes when it does.
    spec fn decode_result(ctx: AccountsContext, bank: Seq<AccountHandle>, start: int, arg: A) -> AnchorResult<int>;

    /// Pins the decoded view.
    spec fn decoded(ctx: AccountsContext, bank: Seq<AccountHandle>, start: int, arg: A, v: Self) -> bool;

    /// Advisory bounds on the number of handles this wrapper consumes.
    spec fn size_hint_spec() -> (int, Option<int>);

    fn try_accounts(
        ctx: &AccountsContext,
        bank: &Vec<AccountHandle>,
        cursor: &mut usize,
        arg: A,
    ) -> (r: AnchorResult<Self>)
        requires
            *old(cursor) <= bank@.len(),
            bank_wf(bank@),
            ctx.wf(),
        ensures
            *old(cursor) <= *final(cursor) <= bank@.len(),
            match r {
                Ok(v) => {
                    &&& Self::decode_result(*ctx, bank@, *old(cursor) as int, arg) == Ok::<
                        int,
                        AnchorError,
                    >(*final(cursor) - *old(cursor))
                    &&& Self::decoded(*ctx, bank@, *old(cursor) as int, arg, v)
                    &&& v.wf(bank@.len() as int)
                    &&& v.indices() =~= Seq::new(
                        (*final(cursor) - *old(cursor)) as nat,
                        |k: int| *old(cursor) + k,
                    )
                },
                Err(e) => Self::decode_result(*ctx, bank@, *old(cursor) as int, arg) == Err::<
                    int,
                    AnchorError,
                >(e),
            },
    ;

    fn size_hint() -> (r: (usize, Option<usize>))
        ensures
            r.0 as int == Self::size_hint_spec().0,
            match (r.1, Self::size_hint_spec().1) {
                (Some(u), Some(su)) => u as int == su,
                (None, None) => true,
                _ => false,
            },
    ;
}

/// Semantic validation: ownership, signer, writability and derived-address
/// checks, given the identity of the currently executing program. Mandatory
/// before any typed data is trusted.
pub trait ValidateAccounts<A>: Accounts {
    /// The outcome of validation as a function of the state.
    spec fn validate_result(&self, ctx: AccountsContext, bank: Seq<AccountHandle>, arg: A) -> AnchorResult<()>;

    /// Relates the view before and after validation; `ok` tells which
    /// outcome applies.
    spec fn validate_post(
        &self,
        ctx: AccountsContext,
        bank: Seq<AccountHandle>,
        arg: A,
        new: Self,
        ok: bool,
    ) -> bool;

    fn validate(&mut self, ctx: &AccountsContext, bank: &Vec<AccountHandle>, arg: A) -> (r:
        AnchorResult<()>)
        requires
            old(self).wf(bank@.len() as int),
            bank_wf(bank@),
            ctx.wf(),
        ensures
            r == old(self).validate_result(*ctx, bank@, arg),
            old(self).validate_post(*ctx, bank@, arg, *final(self), r is Ok),
            final(self).wf(bank@.len() as int),
            final(self).indices() == old(self).indices(),
    ;
}

/// The key of the one handle a single-account view wraps.
pub fn account_key<'a, T: SingleAccount>(v: &T, bank: &'a Vec<AccountHandle>) -> (r: &'a Vec<u8>)
    requires
        v.wf(bank@.len() as int),
    ensures
        r@ == bank@[v.index_spec()].key@,
{
    proof {
        v.single(bank@.len() as int);
    }
    let idx = v.account_index();
    &bank[idx].key
}

/// The current owner of the one handle a single-account view wraps.
pub fn account_owner<'a, T: SingleAccount>(v: &T, bank: &'a Vec<AccountHandle>) -> (r: &'a Vec<
    u8,
>)
    requires
        v.wf(bank@.len() as int),
    ensures
        r@ == bank@[v.index_spec()].owner@,
{
    proof {
        v.single(bank@.len() as int);
    }
    let idx = v.account_index();
    &bank[idx].owner
}

/// An argument that a list combinator can duplicate for each of its
/// elements.
pub trait CloneArg: Sized {
    fn clone_arg(&self) -> (r: Self)
        ensures
            r == *self,
    ;
}

impl CloneArg for () {
    fn clone_arg(&self) -> (r: Self) {
    }
}

impl CloneArg for bool {
    fn clone_arg(&self) -> (r: Self) {
        *self
    }
}

impl CloneArg for u8 {
    fn clone_arg(&self) -> (r: Self) {
        *self
    }
}

impl CloneArg for usize {
    fn clone_arg(&self) -> (r: Self) {
        *self
    }
}

impl<X: CloneArg, Y: CloneArg> CloneArg for (X, Y) {
    fn clone_arg(&self) -> (r: Self) {
        (self.0.clone_arg(), self.1.clone_arg())
    }
}

/// Reconciliation: write owned, possibly-mutated typed data back to the raw
/// buffers and release scoped resources. Only buffer contents may change;
/// keys, flags and borrow bookkeeping are preserved, and handles outside the
/// view are untouched.
pub trait CleanupAccounts<A>: Accounts {
    /// The outcome of cleanup as a function of the state.
    spec fn cleanup_result(&self, ctx: AccountsContext, bank: Seq<AccountHandle>, arg: A) -> AnchorResult<()>;

    /// Pins the buffer contents of reachable handles on success.
    spec fn cleaned(
        &self,
        ctx: AccountsContext,
        bank: Seq<AccountHandle>,
        arg: A,
        new_bank: Seq<AccountHandle>,
    ) -> bool;

    /// Cleanup's outcome depends only on the shape (flags, borrow state,
    /// buffer length) of the handles the view reaches, so a sibling's or a
    /// wrapper's buffer write cannot change whether this cleanup succeeds.
    proof fn cleanup_result_frame(
        &self,
        ctx: AccountsContext,
        arg: A,
        bank1: Seq<AccountHandle>,
        bank2: Seq<AccountHandle>,
    )
        requires
            self.wf(bank1.len() as int),
            bank1.len() == bank2.len(),
            forall|i: int| self.indices().contains(i) ==> bank1[i].same_shape(bank2[i]),
        ensures
            self.cleanup_result(ctx, bank1, arg) == self.cleanup_result(ctx, bank2, arg),
    ;

    /// What cleanup writes depends only on the handles the view reaches,
    /// so disjoint sibling cleanups compose.
    proof fn cleaned_frame(
        &self,
        ctx: AccountsContext,
        arg: A,
        bank1: Seq<AccountHandle>,
        new1: Seq<AccountHandle>,
        bank2: Seq<AccountHandle>,
        new2: Seq<AccountHandle>,
    )
        requires
            self.wf(bank1.len() as int),
            bank1.len() == bank2.len(),
            new1.len() == new2.len(),
            forall|i: int|
                self.indices().contains(i) ==> bank1[i] == bank2[i] && new1[i] == new2[i],
        ensures
            self.cleaned(ctx, bank1, arg, new1) == self.cleaned(ctx, bank2, arg, new2),
    ;

    fn cleanup(&self, ctx: &AccountsContext, bank: &mut Vec<AccountHandle>, arg: A) -> (r:
        AnchorResult<()>)
        requires
            self.wf(old(bank)@.len() as int),
            bank_wf(old(bank)@),
            ctx.wf(),
        ensures
            final(bank)@.len() == old(bank)@.len(),
            forall|i: int|
                0 <= i < old(bank)@.len() && !self.indices().contains(i)
                    ==> final(bank)@[i] == old(bank)@[i],
            forall|i: int|
                0 <= i < old(bank)@.len() ==> {
                    &&& (#[trigger] final(bank)@[i]).same_account(old(bank)@[i])
                    &&& final(bank)@[i].shared_borrows == old(bank)@[i].shared_borrows
                    &&& final(bank)@[i].exclusive_borrow == old(bank)@[i].exclusive_borrow
                },
            bank_wf(final(bank)@),
            r == self.cleanup_result(*ctx, old(bank)@, arg),
            r is Ok ==> self.cleaned(*ctx, old(bank)@, arg, final(bank)@),
    ;
}

} // verus!
