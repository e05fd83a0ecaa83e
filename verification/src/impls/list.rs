use vstd::prelude::*;
use vstd::seq_lib::lemma_no_dup_in_concat;

use crate::error::{AnchorError, AnchorResult};
use crate::handle::AccountHandle;
use crate::traits::account::{Accounts, CleanupAccounts, DecodeAccounts, ValidateAccounts};
use crate::traits::constraint::SupportsConstraint;
use crate::traits::AccountsContext;

verus! {

/// Concatenation of the index sequences of a list of views, in element
/// order.
pub open spec fn concat_indices<T: Accounts>(elems: Seq<T>) -> Seq<int>
    decreases elems.len(),
{
    if elems.len() == 0 {
        Seq::empty()
    } else {
        elems[0].indices() + concat_indices(elems.drop_first())
    }
}

/// No two elements of the list reach the same handle.
pub open spec fn pairwise_disjoint<T: Accounts>(elems: Seq<T>) -> bool {
    forall|j1: int, j2: int, i: int|
        0 <= j1 < elems.len() && 0 <= j2 < elems.len() && j1 != j2 && (#[trigger] elems[j1].indices().contains(i)) ==> !(#[trigger] elems[j2].indices().contains(i))
}

/// An index reached by some element is in the concatenation.
pub proof fn lemma_concat_indices_membership<T: Accounts>(elems: Seq<T>, j: int, i: int)
    requires
        0 <= j < elems.len(),
        elems[j].indices().contains(i),
    ensures
        concat_indices(elems).contains(i),
    decreases elems.len(),
{
    if j == 0 {
        let k = choose|k: int| 0 <= k < elems[0].indices().len() && elems[0].indices()[k] == i;
        assert(concat_indices(elems)[k] == i);
    } else {
        assert(elems.drop_first()[j - 1] == elems[j]);
        lemma_concat_indices_membership(elems.drop_first(), j - 1, i);
        let k = choose|k: int|
            0 <= k < concat_indices(elems.drop_first()).len() && concat_indices(
                elems.drop_first(),
            )[k] == i;
        assert(concat_indices(elems)[elems[0].indices().len() + k] == i);
    }
}

/// An index in the concatenation is reached by some element.
pub proof fn lemma_concat_indices_origin<T: Accounts>(elems: Seq<T>, i: int)
    requires
        concat_indices(elems).contains(i),
    ensures
        exists|j: int| 0 <= j < elems.len() && (#[trigger] elems[j].indices().contains(i)),
    decreases elems.len(),
{
    let k = choose|k: int|
        0 <= k < concat_indices(elems).len() && concat_indices(elems)[k] == i;
    if k < elems[0].indices().len() {
        assert(elems[0].indices()[k] == i);
        assert(elems[0].indices().contains(i));
    } else {
        assert(concat_indices(elems.drop_first())[k - elems[0].indices().len()] == i);
        assert(concat_indices(elems.drop_first()).contains(i));
        lemma_concat_indices_origin(elems.drop_first(), i);
        let j = choose|j: int|
            0 <= j < elems.drop_first().len() && (#[trigger] elems.drop_first()[j].indices().contains(i));
        assert(elems[j + 1].indices().contains(i));
    }
}

/// Bounds of the concatenation follow from the elements' well-formedness.
pub proof fn lemma_concat_indices_bounds<T: Accounts>(elems: Seq<T>, bank_len: int)
    requires
        forall|k: int| 0 <= k < elems.len() ==> (#[trigger] elems[k]).wf(bank_len),
    ensures
        forall|k: int|
            0 <= k < concat_indices(elems).len() ==> 0 <= #[trigger] concat_indices(elems)[k]
                < bank_len,
    decreases elems.len(),
{
    if elems.len() > 0 {
        elems[0].wf_indices(bank_len);
        assert forall|k: int| 0 <= k < elems.drop_first().len() implies (#[trigger] elems.drop_first()[k]).wf(bank_len) by {
            assert(elems.drop_first()[k] == elems[k + 1]);
        }
        lemma_concat_indices_bounds(elems.drop_first(), bank_len);
        assert forall|k: int| 0 <= k < concat_indices(elems).len() implies 0
            <= #[trigger] concat_indices(elems)[k] < bank_len by {
            if k >= elems[0].indices().len() {
                assert(concat_indices(elems)[k] == concat_indices(elems.drop_first())[k - elems[0].indices().len()]);
            }
        }
    }
}

/// The concatenation has no duplicates when each element has none and the
/// elements are pairwise disjoint.
pub proof fn lemma_concat_indices_no_dup<T: Accounts>(elems: Seq<T>, bank_len: int)
    requires
        forall|k: int| 0 <= k < elems.len() ==> (#[trigger] elems[k]).wf(bank_len),
        pairwise_disjoint(elems),
    ensures
        concat_indices(elems).no_duplicates(),
    decreases elems.len(),
{
    if elems.len() > 0 {
        elems[0].wf_indices(bank_len);
        assert forall|k: int| 0 <= k < elems.drop_first().len() implies (#[trigger] elems.drop_first()[k]).wf(bank_len) by {
            assert(elems.drop_first()[k] == elems[k + 1]);
        }
        assert forall|j1: int, j2: int, i: int|
            0 <= j1 < elems.drop_first().len() && 0 <= j2 < elems.drop_first().len() && j1 != j2
                && (#[trigger] elems.drop_first()[j1].indices().contains(i)) implies !(
        #[trigger] elems.drop_first()[j2].indices().contains(i)) by {
            assert(elems.drop_first()[j1] == elems[j1 + 1]);
            assert(elems.drop_first()[j2] == elems[j2 + 1]);
        }
        lemma_concat_indices_no_dup(elems.drop_first(), bank_len);
        let head = elems[0].indices();
        let tail = concat_indices(elems.drop_first());
        assert forall|a: int, b: int| 0 <= a < head.len() && 0 <= b < tail.len() implies head[a]
            != tail[b] by {
            if head[a] == tail[b] {
                let i = tail[b];
                assert(tail.contains(i));
                lemma_concat_indices_origin(elems.drop_first(), i);
                let j = choose|j: int|
                    0 <= j < elems.drop_first().len() && (#[trigger] elems.drop_first()[j].indices().contains(i));
                assert(elems[j + 1].indices().contains(i));
                assert(elems[0].indices().contains(i));
            }
        }
        lemma_no_dup_in_concat(head, tail);
    }
}

/// Greedy decoding of homogeneous elements: how many handles the whole list
/// consumes from `start`, or the first error. An element decode that makes
/// no progress is rejected rather than looped on forever.
pub open spec fn list_decode_result<T: DecodeAccounts<A>, A>(
    ctx: AccountsContext,
    bank: Seq<AccountHandle>,
    start: int,
    arg: A,
) -> AnchorResult<int>
    decreases bank.len() - start,
{
    if start >= bank.len() {
        Ok(0)
    } else {
        match T::decode_result(ctx, bank, start, arg) {
            Ok(n) => {
                if 1 <= n && start + n <= bank.len() {
                    match list_decode_result::<T, A>(ctx, bank, start + n, arg) {
                        Ok(m) => Ok(n + m),
                        Err(e) => Err(e),
                    }
                } else {
                    Err(AnchorError::InvalidArgument)
                }
            },
            Err(e) => Err(e),
        }
    }
}

/// The elements decoded between `start` and `end`, in order.
pub open spec fn list_decoded<T: DecodeAccounts<A>, A>(
    ctx: AccountsContext,
    bank: Seq<AccountHandle>,
    start: int,
    end: int,
    arg: A,
    elems: Seq<T>,
) -> bool
    decreases elems.len(),
{
    if elems.len() == 0 {
        start == end
    } else {
        match T::decode_result(ctx, bank, start, arg) {
            Ok(n) => {
                &&& 1 <= n
                &&& start + n <= bank.len()
                &&& T::decoded(ctx, bank, start, arg, elems[0])
                &&& elems[0].wf(bank.len() as int)
                &&& elems[0].indices() =~= Seq::new(n as nat, |k: int| start + k)
                &&& list_decoded(ctx, bank, start + n, end, arg, elems.drop_first())
            },
            Err(_) => false,
        }
    }
}

/// Extending a decoded prefix by one more decoded element.
pub proof fn lemma_list_decoded_snoc<T: DecodeAccounts<A>, A>(
    ctx: AccountsContext,
    bank: Seq<AccountHandle>,
    start: int,
    mid: int,
    arg: A,
    elems: Seq<T>,
    v: T,
    n: int,
)
    requires
        list_decoded(ctx, bank, start, mid, arg, elems),
        T::decode_result(ctx, bank, mid, arg) == Ok::<int, AnchorError>(n),
        1 <= n,
        mid + n <= bank.len(),
        T::decoded(ctx, bank, mid, arg, v),
        v.wf(bank.len() as int),
        v.indices() =~= Seq::new(n as nat, |k: int| mid + k),
    ensures
        list_decoded(ctx, bank, start, mid + n, arg, elems.push(v)),
    decreases elems.len(),
{
    if elems.len() == 0 {
        assert(elems.push(v)[0] == v);
        assert(elems.push(v).drop_first() =~= Seq::<T>::empty());
        assert(start == mid);
        assert(v.indices() =~= Seq::new(n as nat, |k: int| start + k));
        assert(list_decoded(ctx, bank, start + n, mid + n, arg, elems.push(v).drop_first()));
    } else {
        let n0 = T::decode_result(ctx, bank, start, arg)->Ok_0;
        lemma_list_decoded_snoc(ctx, bank, start + n0, mid, arg, elems.drop_first(), v, n);
        assert(elems.push(v)[0] == elems[0]);
        assert(elems.push(v).drop_first() =~= elems.drop_first().push(v));
    }
}

/// What a fully decoded list guarantees: every element is well formed, the
/// reached indices are exactly the consumed contiguous range, and elements
/// are pairwise disjoint.
pub proof fn lemma_list_decoded_props<T: DecodeAccounts<A>, A>(
    ctx: AccountsContext,
    bank: Seq<AccountHandle>,
    start: int,
    end: int,
    arg: A,
    elems: Seq<T>,
)
    requires
        0 <= start,
        list_decoded(ctx, bank, start, end, arg, elems),
    ensures
        start <= end,
        forall|j: int| 0 <= j < elems.len() ==> (#[trigger] elems[j]).wf(bank.len() as int),
        concat_indices(elems) =~= Seq::new((end - start) as nat, |k: int| start + k),
        pairwise_disjoint(elems),
    decreases elems.len(),
{
    if elems.len() == 0 {
    } else {
        let n0 = T::decode_result(ctx, bank, start, arg)->Ok_0;
        lemma_list_decoded_props(ctx, bank, start + n0, end, arg, elems.drop_first());
        assert forall|j: int| 0 <= j < elems.len() implies (#[trigger] elems[j]).wf(
            bank.len() as int,
        ) by {
            if j > 0 {
                assert(elems.drop_first()[j - 1] == elems[j]);
            }
        }
        let head = elems[0].indices();
        let tail = concat_indices(elems.drop_first());
        assert(concat_indices(elems) =~= head + tail);
        assert(concat_indices(elems) =~= Seq::new((end - start) as nat, |k: int| start + k));
        // Disjointness: the head occupies [start, start + n0), every later
        // element sits inside [start + n0, end).
        assert forall|j1: int, j2: int, i: int|
            0 <= j1 < elems.len() && 0 <= j2 < elems.len() && j1 != j2 && (#[trigger] elems[j1].indices().contains(i)) implies !(#[trigger] elems[j2].indices().contains(i)) by {
            if elems[j2].indices().contains(i) {
                if j1 == 0 {
                    assert(i < start + n0);
                    assert(elems.drop_first()[j2 - 1] == elems[j2]);
                    lemma_concat_indices_membership(elems.drop_first(), j2 - 1, i);
                    assert(tail.contains(i));
                    let k = choose|k: int| 0 <= k < tail.len() && tail[k] == i;
                    assert(i >= start + n0);
                } else if j2 == 0 {
                    assert(i < start + n0);
                    assert(elems.drop_first()[j1 - 1] == elems[j1]);
                    lemma_concat_indices_membership(elems.drop_first(), j1 - 1, i);
                    assert(tail.contains(i));
                    let k = choose|k: int| 0 <= k < tail.len() && tail[k] == i;
                    assert(i >= start + n0);
                } else {
                    assert(elems.drop_first()[j1 - 1] == elems[j1]);
                    assert(elems.drop_first()[j2 - 1] == elems[j2]);
                }
            }
        }
    }
}

/// Decoding of a fixed count of homogeneous elements: how many handles the
/// whole array consumes from `start`, or the first error.
pub open spec fn array_decode_result<T: DecodeAccounts<A>, A>(
    ctx: AccountsContext,
    bank: Seq<AccountHandle>,
    start: int,
    arg: A,
    count: int,
) -> AnchorResult<int>
    decreases count,
{
    if count <= 0 {
        Ok(0)
    } else {
        match T::decode_result(ctx, bank, start, arg) {
            Ok(n) => {
                if 0 <= n && start + n <= bank.len() {
                    match array_decode_result::<T, A>(ctx, bank, start + n, arg, count - 1) {
                        Ok(m) => Ok(n + m),
                        Err(e) => Err(e),
                    }
                } else {
                    Err(AnchorError::InvalidArgument)
                }
            },
            Err(e) => Err(e),
        }
    }
}

/// The array elements decoded between `start` and `end`, in order.
pub open spec fn array_decoded<T: DecodeAccounts<A>, A>(
    ctx: AccountsContext,
    bank: Seq<AccountHandle>,
    start: int,
    end: int,
    arg: A,
    elems: Seq<T>,
) -> bool
    decreases elems.len(),
{
    if elems.len() == 0 {
        start == end
    } else {
        match T::decode_result(ctx, bank, start, arg) {
            Ok(n) => {
                &&& 0 <= n
                &&& start + n <= bank.len()
                &&& T::decoded(ctx, bank, start, arg, elems[0])
                &&& elems[0].wf(bank.len() as int)
                &&& elems[0].indices() =~= Seq::new(n as nat, |k: int| start + k)
                &&& array_decoded(ctx, bank, start + n, end, arg, elems.drop_first())
            },
            Err(_) => false,
        }
    }
}

/// Extending a decoded array prefix by one more decoded element.
pub proof fn lemma_array_decoded_snoc<T: DecodeAccounts<A>, A>(
    ctx: AccountsContext,
    bank: Seq<AccountHandle>,
    start: int,
    mid: int,
    arg: A,
    elems: Seq<T>,
    v: T,
    n: int,
)
    requires
        array_decoded(ctx, bank, start, mid, arg, elems),
        T::decode_result(ctx, bank, mid, arg) == Ok::<int, AnchorError>(n),
        0 <= n,
        mid + n <= bank.len(),
        T::decoded(ctx, bank, mid, arg, v),
        v.wf(bank.len() as int),
        v.indices() =~= Seq::new(n as nat, |k: int| mid + k),
    ensures
        array_decoded(ctx, bank, start, mid + n, arg, elems.push(v)),
    decreases elems.len(),
{
    if elems.len() == 0 {
        assert(elems.push(v)[0] == v);
        assert(elems.push(v).drop_first() =~= Seq::<T>::empty());
        assert(start == mid);
        assert(v.indices() =~= Seq::new(n as nat, |k: int| start + k));
        assert(array_decoded(ctx, bank, start + n, mid + n, arg, elems.push(v).drop_first()));
    } else {
        let n0 = T::decode_result(ctx, bank, start, arg)->Ok_0;
        lemma_array_decoded_snoc(ctx, bank, start + n0, mid, arg, elems.drop_first(), v, n);
        assert(elems.push(v)[0] == elems[0]);
        assert(elems.push(v).drop_first() =~= elems.drop_first().push(v));
    }
}

/// What a fully decoded array guarantees: every element is well formed,
/// the reached indices are exactly the consumed contiguous range, and
/// elements are pairwise disjoint.
pub proof fn lemma_array_decoded_props<T: DecodeAccounts<A>, A>(
    ctx: AccountsContext,
    bank: Seq<AccountHandle>,
    start: int,
    end: int,
    arg: A,
    elems: Seq<T>,
)
    requires
        0 <= start,
        array_decoded(ctx, bank, start, end, arg, elems),
    ensures
        start <= end,
        forall|j: int| 0 <= j < elems.len() ==> (#[trigger] elems[j]).wf(bank.len() as int),
        concat_indices(elems) =~= Seq::new((end - start) as nat, |k: int| start + k),
        pairwise_disjoint(elems),
    decreases elems.len(),
{
    if elems.len() == 0 {
    } else {
        let n0 = T::decode_result(ctx, bank, start, arg)->Ok_0;
        lemma_array_decoded_props(ctx, bank, start + n0, end, arg, elems.drop_first());
        assert forall|j: int| 0 <= j < elems.len() implies (#[trigger] elems[j]).wf(
            bank.len() as int,
        ) by {
            if j > 0 {
                assert(elems.drop_first()[j - 1] == elems[j]);
            }
        }
        let head = elems[0].indices();
        let tail = concat_indices(elems.drop_first());
        assert(concat_indices(elems) =~= head + tail);
        assert(concat_indices(elems) =~= Seq::new((end - start) as nat, |k: int| start + k));
        assert forall|j1: int, j2: int, i: int|
            0 <= j1 < elems.len() && 0 <= j2 < elems.len() && j1 != j2 && (#[trigger] elems[j1].indices().contains(i)) implies !(#[trigger] elems[j2].indices().contains(i)) by {
            if elems[j2].indices().contains(i) {
                if j1 == 0 {
                    assert(i < start + n0);
                    assert(elems.drop_first()[j2 - 1] == elems[j2]);
                    lemma_concat_indices_membership(elems.drop_first(), j2 - 1, i);
                    assert(tail.contains(i));
                    let k = choose|k: int| 0 <= k < tail.len() && tail[k] == i;
                    assert(i >= start + n0);
                } else if j2 == 0 {
                    assert(i < start + n0);
                    assert(elems.drop_first()[j1 - 1] == elems[j1]);
                    lemma_concat_indices_membership(elems.drop_first(), j1 - 1, i);
                    assert(tail.contains(i));
                    let k = choose|k: int| 0 <= k < tail.len() && tail[k] == i;
                    assert(i >= start + n0);
                } else {
                    assert(elems.drop_first()[j1 - 1] == elems[j1]);
                    assert(elems.drop_first()[j2 - 1] == elems[j2]);
                }
            }
        }
    }
}

/// Decoding of homogeneous elements from one argument per element: how
/// many handles the whole array consumes from `start`, or the first error.
pub open spec fn array_decode_result_per<T: DecodeAccounts<A>, A>(
    ctx: AccountsContext,
    bank: Seq<AccountHandle>,
    start: int,
    args: Seq<A>,
) -> AnchorResult<int>
    decreases args.len(),
{
    if args.len() == 0 {
        Ok(0)
    } else {
        match T::decode_result(ctx, bank, start, args[0]) {
            Ok(n) => {
                if 0 <= n && start + n <= bank.len() {
                    match array_decode_result_per::<T, A>(ctx, bank, start + n, args.drop_first()) {
                        Ok(m) => Ok(n + m),
                        Err(e) => Err(e),
                    }
                } else {
                    Err(AnchorError::InvalidArgument)
                }
            },
            Err(e) => Err(e),
        }
    }
}

/// The elements decoded between `start` and `end` from one argument each,
/// in order.
pub open spec fn array_decoded_per<T: DecodeAccounts<A>, A>(
    ctx: AccountsContext,
    bank: Seq<AccountHandle>,
    start: int,
    end: int,
    args: Seq<A>,
    elems: Seq<T>,
) -> bool
    decreases elems.len(),
{
    if elems.len() == 0 {
        start == end && args.len() == 0
    } else if args.len() != elems.len() {
        false
    } else {
        match T::decode_result(ctx, bank, start, args[0]) {
            Ok(n) => {
                &&& 0 <= n
                &&& start + n <= bank.len()
                &&& T::decoded(ctx, bank, start, args[0], elems[0])
                &&& elems[0].wf(bank.len() as int)
                &&& elems[0].indices() =~= Seq::new(n as nat, |k: int| start + k)
                &&& array_decoded_per(
                    ctx,
                    bank,
                    start + n,
                    end,
                    args.drop_first(),
                    elems.drop_first(),
                )
            },
            Err(_) => false,
        }
    }
}

/// Extending a decoded per-argument prefix by one more decoded element.
pub proof fn lemma_array_decoded_per_snoc<T: DecodeAccounts<A>, A>(
    ctx: AccountsContext,
    bank: Seq<AccountHandle>,
    start: int,
    mid: int,
    args: Seq<A>,
    elems: Seq<T>,
    a: A,
    v: T,
    n: int,
)
    requires
        array_decoded_per(ctx, bank, start, mid, args, elems),
        T::decode_result(ctx, bank, mid, a) == Ok::<int, AnchorError>(n),
        0 <= n,
        mid + n <= bank.len(),
        T::decoded(ctx, bank, mid, a, v),
        v.wf(bank.len() as int),
        v.indices() =~= Seq::new(n as nat, |k: int| mid + k),
    ensures
        array_decoded_per(ctx, bank, start, mid + n, args.push(a), elems.push(v)),
    decreases elems.len(),
{
    if elems.len() == 0 {
        assert(elems.push(v)[0] == v);
        assert(args.push(a)[0] == a);
        assert(elems.push(v).drop_first() =~= Seq::<T>::empty());
        assert(args.push(a).drop_first() =~= Seq::<A>::empty());
        assert(start == mid);
        assert(v.indices() =~= Seq::new(n as nat, |k: int| start + k));
        assert(array_decoded_per(
            ctx,
            bank,
            start + n,
            mid + n,
            args.push(a).drop_first(),
            elems.push(v).drop_first(),
        ));
    } else {
        let n0 = T::decode_result(ctx, bank, start, args[0])->Ok_0;
        lemma_array_decoded_per_snoc(
            ctx,
            bank,
            start + n0,
            mid,
            args.drop_first(),
            elems.drop_first(),
            a,
            v,
            n,
        );
        assert(elems.push(v)[0] == elems[0]);
        assert(args.push(a)[0] == args[0]);
        assert(elems.push(v).drop_first() =~= elems.drop_first().push(v));
        assert(args.push(a).drop_first() =~= args.drop_first().push(a));
    }
}

/// What a fully decoded per-argument array guarantees.
pub proof fn lemma_array_decoded_per_props<T: DecodeAccounts<A>, A>(
    ctx: AccountsContext,
    bank: Seq<AccountHandle>,
    start: int,
    end: int,
    args: Seq<A>,
    elems: Seq<T>,
)
    requires
        0 <= start,
        array_decoded_per(ctx, bank, start, end, args, elems),
    ensures
        start <= end,
        forall|j: int| 0 <= j < elems.len() ==> (#[trigger] elems[j]).wf(bank.len() as int),
        concat_indices(elems) =~= Seq::new((end - start) as nat, |k: int| start + k),
        pairwise_disjoint(elems),
    decreases elems.len(),
{
    if elems.len() == 0 {
    } else {
        let n0 = T::decode_result(ctx, bank, start, args[0])->Ok_0;
        lemma_array_decoded_per_props(
            ctx,
            bank,
            start + n0,
            end,
            args.drop_first(),
            elems.drop_first(),
        );
        assert forall|j: int| 0 <= j < elems.len() implies (#[trigger] elems[j]).wf(
            bank.len() as int,
        ) by {
            if j > 0 {
                assert(elems.drop_first()[j - 1] == elems[j]);
            }
        }
        let head = elems[0].indices();
        let tail = concat_indices(elems.drop_first());
        assert(concat_indices(elems) =~= head + tail);
        assert(concat_indices(elems) =~= Seq::new((end - start) as nat, |k: int| start + k));
        assert forall|j1: int, j2: int, i: int|
            0 <= j1 < elems.len() && 0 <= j2 < elems.len() && j1 != j2 && (#[trigger] elems[j1].indices().contains(i)) implies !(#[trigger] elems[j2].indices().contains(i)) by {
            if elems[j2].indices().contains(i) {
                if j1 == 0 {
                    assert(i < start + n0);
                    assert(elems.drop_first()[j2 - 1] == elems[j2]);
                    lemma_concat_indices_membership(elems.drop_first(), j2 - 1, i);
                    assert(tail.contains(i));
                    let k = choose|k: int| 0 <= k < tail.len() && tail[k] == i;
                    assert(i >= start + n0);
                } else if j2 == 0 {
                    assert(i < start + n0);
                    assert(elems.drop_first()[j1 - 1] == elems[j1]);
                    lemma_concat_indices_membership(elems.drop_first(), j1 - 1, i);
                    assert(tail.contains(i));
                    let k = choose|k: int| 0 <= k < tail.len() && tail[k] == i;
                    assert(i >= start + n0);
                } else {
                    assert(elems.drop_first()[j1 - 1] == elems[j1]);
                    assert(elems.drop_first()[j2 - 1] == elems[j2]);
                }
            }
        }
    }
}

/// The number of leading elements whose validation succeeds on this state
/// (the whole list when all do).
pub open spec fn validate_prefix_len<T: ValidateAccounts<A>, A>(
    elems: Seq<T>,
    ctx: AccountsContext,
    bank: Seq<AccountHandle>,
    arg: A,
) -> int
    decreases elems.len(),
{
    if elems.len() == 0 {
        0
    } else if elems[0].validate_result(ctx, bank, arg) is Err {
        0
    } else {
        1 + validate_prefix_len(elems.drop_first(), ctx, bank, arg)
    }
}

pub proof fn lemma_validate_prefix_len<T: ValidateAccounts<A>, A>(
    elems: Seq<T>,
    ctx: AccountsContext,
    bank: Seq<AccountHandle>,
    arg: A,
)
    ensures
        0 <= validate_prefix_len(elems, ctx, bank, arg) <= elems.len(),
        forall|j: int|
            0 <= j < validate_prefix_len(elems, ctx, bank, arg) ==> (#[trigger] elems[j]).validate_result(ctx, bank, arg) is Ok,
        validate_prefix_len(elems, ctx, bank, arg) < elems.len() ==> elems[validate_prefix_len(
            elems,
            ctx,
            bank,
            arg,
        )].validate_result(ctx, bank, arg) is Err,
    decreases elems.len(),
{
    if elems.len() > 0 && !(elems[0].validate_result(ctx, bank, arg) is Err) {
        lemma_validate_prefix_len(elems.drop_first(), ctx, bank, arg);
        let v = validate_prefix_len(elems, ctx, bank, arg);
        assert forall|j: int| 0 <= j < v implies (#[trigger] elems[j]).validate_result(
            ctx,
            bank,
            arg,
        ) is Ok by {
            if j > 0 {
                assert(elems.drop_first()[j - 1] == elems[j]);
            }
        }
        if v < elems.len() {
            assert(elems.drop_first()[v - 1] == elems[v]);
        }
    }
}

/// The number of leading elements whose cleanup succeeds, judged against
/// one fixed bank state (cleanup of earlier elements cannot change it, by
/// `cleanup_frame` and disjointness).
pub open spec fn cleanup_prefix_len<T: CleanupAccounts<A>, A>(
    elems: Seq<T>,
    ctx: AccountsContext,
    bank: Seq<AccountHandle>,
    arg: A,
) -> int
    decreases elems.len(),
{
    if elems.len() == 0 {
        0
    } else if elems[0].cleanup_result(ctx, bank, arg) is Err {
        0
    } else {
        1 + cleanup_prefix_len(elems.drop_first(), ctx, bank, arg)
    }
}

pub proof fn lemma_cleanup_prefix_len<T: CleanupAccounts<A>, A>(
    elems: Seq<T>,
    ctx: AccountsContext,
    bank: Seq<AccountHandle>,
    arg: A,
)
    ensures
        0 <= cleanup_prefix_len(elems, ctx, bank, arg) <= elems.len(),
        forall|j: int|
            0 <= j < cleanup_prefix_len(elems, ctx, bank, arg) ==> (#[trigger] elems[j]).cleanup_result(ctx, bank, arg) is Ok,
        cleanup_prefix_len(elems, ctx, bank, arg) < elems.len() ==> elems[cleanup_prefix_len(
            elems,
            ctx,
            bank,
            arg,
        )].cleanup_result(ctx, bank, arg) is Err,
    decreases elems.len(),
{
    if elems.len() > 0 && !(elems[0].cleanup_result(ctx, bank, arg) is Err) {
        lemma_cleanup_prefix_len(elems.drop_first(), ctx, bank, arg);
        let v = cleanup_prefix_len(elems, ctx, bank, arg);
        assert forall|j: int| 0 <= j < v implies (#[trigger] elems[j]).cleanup_result(
            ctx,
            bank,
            arg,
        ) is Ok by {
            if j > 0 {
                assert(elems.drop_first()[j - 1] == elems[j]);
            }
        }
        if v < elems.len() {
            assert(elems.drop_first()[v - 1] == elems[v]);
        }
    }
}

/// The number of leading elements on which the early constraint hook
/// succeeds (the whole list when all do).
pub open spec fn early_prefix_len<T: SupportsConstraint<C>, C>(
    elems: Seq<T>,
    constraint: C,
    ctx: AccountsContext,
    bank: Seq<AccountHandle>,
) -> int
    decreases elems.len(),
{
    if elems.len() == 0 {
        0
    } else if elems[0].early_spec(constraint, ctx, bank) is Err {
        0
    } else {
        1 + early_prefix_len(elems.drop_first(), constraint, ctx, bank)
    }
}

pub proof fn lemma_early_prefix_len<T: SupportsConstraint<C>, C>(
    elems: Seq<T>,
    constraint: C,
    ctx: AccountsContext,
    bank: Seq<AccountHandle>,
)
    ensures
        0 <= early_prefix_len(elems, constraint, ctx, bank) <= elems.len(),
        forall|j: int|
            0 <= j < early_prefix_len(elems, constraint, ctx, bank) ==> (#[trigger] elems[j]).early_spec(constraint, ctx, bank) is Ok,
        early_prefix_len(elems, constraint, ctx, bank) < elems.len() ==> elems[early_prefix_len(
            elems,
            constraint,
            ctx,
            bank,
        )].early_spec(constraint, ctx, bank) is Err,
    decreases elems.len(),
{
    if elems.len() > 0 && !(elems[0].early_spec(constraint, ctx, bank) is Err) {
        lemma_early_prefix_len(elems.drop_first(), constraint, ctx, bank);
        let v = early_prefix_len(elems, constraint, ctx, bank);
        assert forall|j: int| 0 <= j < v implies (#[trigger] elems[j]).early_spec(
            constraint,
            ctx,
            bank,
        ) is Ok by {
            if j > 0 {
                assert(elems.drop_first()[j - 1] == elems[j]);
            }
        }
        if v < elems.len() {
            assert(elems.drop_first()[v - 1] == elems[v]);
        }
    }
}

/// The number of leading elements on which the late constraint hook
/// succeeds (the whole list when all do).
pub open spec fn late_prefix_len<T: SupportsConstraint<C>, C>(
    elems: Seq<T>,
    constraint: C,
    ctx: AccountsContext,
    bank: Seq<AccountHandle>,
) -> int
    decreases elems.len(),
{
    if elems.len() == 0 {
        0
    } else if elems[0].late_spec(constraint, ctx, bank) is Err {
        0
    } else {
        1 + late_prefix_len(elems.drop_first(), constraint, ctx, bank)
    }
}

pub proof fn lemma_late_prefix_len<T: SupportsConstraint<C>, C>(
    elems: Seq<T>,
    constraint: C,
    ctx: AccountsContext,
    bank: Seq<AccountHandle>,
)
    ensures
        0 <= late_prefix_len(elems, constraint, ctx, bank) <= elems.len(),
        forall|j: int|
            0 <= j < late_prefix_len(elems, constraint, ctx, bank) ==> (#[trigger] elems[j]).late_spec(constraint, ctx, bank) is Ok,
        late_prefix_len(elems, constraint, ctx, bank) < elems.len() ==> elems[late_prefix_len(
            elems,
            constraint,
            ctx,
            bank,
        )].late_spec(constraint, ctx, bank) is Err,
    decreases elems.len(),
{
    if elems.len() > 0 && !(elems[0].late_spec(constraint, ctx, bank) is Err) {
        lemma_late_prefix_len(elems.drop_first(), constraint, ctx, bank);
        let v = late_prefix_len(elems, constraint, ctx, bank);
        assert forall|j: int| 0 <= j < v implies (#[trigger] elems[j]).late_spec(
            constraint,
            ctx,
            bank,
        ) is Ok by {
            if j > 0 {
                assert(elems.drop_first()[j - 1] == elems[j]);
            }
        }
        if v < elems.len() {
            assert(elems.drop_first()[v - 1] == elems[v]);
        }
    }
}

/// The number of leading elements on which the constraint_cleanup constraint hook
/// succeeds (the whole list when all do).
pub open spec fn constraint_cleanup_prefix_len<T: SupportsConstraint<C>, C>(
    elems: Seq<T>,
    constraint: C,
    ctx: AccountsContext,
    bank: Seq<AccountHandle>,
) -> int
    decreases elems.len(),
{
    if elems.len() == 0 {
        0
    } else if elems[0].constraint_cleanup_spec(constraint, ctx, bank) is Err {
        0
    } else {
        1 + constraint_cleanup_prefix_len(elems.drop_first(), constraint, ctx, bank)
    }
}

pub proof fn lemma_constraint_cleanup_prefix_len<T: SupportsConstraint<C>, C>(
    elems: Seq<T>,
    constraint: C,
    ctx: AccountsContext,
    bank: Seq<AccountHandle>,
)
    ensures
        0 <= constraint_cleanup_prefix_len(elems, constraint, ctx, bank) <= elems.len(),
        forall|j: int|
            0 <= j < constraint_cleanup_prefix_len(elems, constraint, ctx, bank) ==> (#[trigger] elems[j]).constraint_cleanup_spec(constraint, ctx, bank) is Ok,
        constraint_cleanup_prefix_len(elems, constraint, ctx, bank) < elems.len() ==> elems[constraint_cleanup_prefix_len(
            elems,
            constraint,
            ctx,
            bank,
        )].constraint_cleanup_spec(constraint, ctx, bank) is Err,
    decreases elems.len(),
{
    if elems.len() > 0 && !(elems[0].constraint_cleanup_spec(constraint, ctx, bank) is Err) {
        lemma_constraint_cleanup_prefix_len(elems.drop_first(), constraint, ctx, bank);
        let v = constraint_cleanup_prefix_len(elems, constraint, ctx, bank);
        assert forall|j: int| 0 <= j < v implies (#[trigger] elems[j]).constraint_cleanup_spec(
            constraint,
            ctx,
            bank,
        ) is Ok by {
            if j > 0 {
                assert(elems.drop_first()[j - 1] == elems[j]);
            }
        }
        if v < elems.len() {
            assert(elems.drop_first()[v - 1] == elems[v]);
        }
    }
}

/// No element before position `i` reaches handle `idx`.
pub open spec fn untouched_by_prefix<T: Accounts>(elems: Seq<T>, i: int, idx: int) -> bool {
    forall|j: int| 0 <= j < i && j < elems.len() ==> !(#[trigger] elems[j]).indices().contains(idx)
}

/// Concatenation over a one-longer prefix appends the next element's
/// indices.
pub proof fn lemma_concat_take_snoc<T: Accounts>(elems: Seq<T>, i: int)
    requires
        0 <= i < elems.len(),
    ensures
        concat_indices(elems.take(i + 1)) =~= concat_indices(elems.take(i)) + elems[i].indices(),
    decreases i,
{
    if i == 0 {
        assert(elems.take(0) =~= Seq::<T>::empty());
        assert(elems.take(1)[0] == elems[0]);
        assert(elems.take(1).drop_first() =~= Seq::<T>::empty());
        assert(concat_indices(elems.take(1).drop_first()) =~= Seq::<int>::empty());
        assert(concat_indices(elems.take(1)) =~= elems[0].indices());
    } else {
        lemma_concat_take_snoc(elems.drop_first(), i - 1);
        assert(elems.take(i + 1)[0] == elems[0]);
        assert(elems.take(i)[0] == elems[0]);
        assert(elems.take(i + 1).drop_first() =~= elems.drop_first().take(i));
        assert(elems.take(i).drop_first() =~= elems.drop_first().take(i - 1));
        assert(elems.drop_first()[i - 1] == elems[i]);
    }
}

/// Concatenated indices agree whenever the lists agree elementwise on their
/// indices.
pub proof fn lemma_concat_indices_congruence<T: Accounts>(a: Seq<T>, b: Seq<T>)
    requires
        a.len() == b.len(),
        forall|j: int| 0 <= j < a.len() ==> (#[trigger] a[j]).indices() == b[j].indices(),
    ensures
        concat_indices(a) == concat_indices(b),
    decreases a.len(),
{
    if a.len() > 0 {
        assert forall|j: int| 0 <= j < a.drop_first().len() implies (#[trigger] a.drop_first()[j]).indices() == b.drop_first()[j].indices() by {
            assert(a.drop_first()[j] == a[j + 1]);
            assert(b.drop_first()[j] == b[j + 1]);
        }
        lemma_concat_indices_congruence(a.drop_first(), b.drop_first());
        assert(concat_indices(a) =~= concat_indices(b));
    }
}

/// The cleanup prefix length, and the error after it, are the same on any
/// two banks whose handles have the same shape wherever the elements reach.
pub proof fn lemma_cleanup_prefix_len_frame<T: CleanupAccounts<A>, A>(
    elems: Seq<T>,
    ctx: AccountsContext,
    bank1: Seq<AccountHandle>,
    bank2: Seq<AccountHandle>,
    arg: A,
)
    requires
        bank1.len() == bank2.len(),
        forall|j: int| 0 <= j < elems.len() ==> (#[trigger] elems[j]).wf(bank1.len() as int),
        forall|j: int, i: int|
            0 <= j < elems.len() && (#[trigger] elems[j].indices().contains(i)) ==> bank1[
                i
            ].same_shape(bank2[i]),
    ensures
        cleanup_prefix_len(elems, ctx, bank1, arg) == cleanup_prefix_len(elems, ctx, bank2, arg),
        forall|j: int|
            0 <= j < elems.len() ==> (#[trigger] elems[j]).cleanup_result(ctx, bank1, arg)
                == elems[j].cleanup_result(ctx, bank2, arg),
    decreases elems.len(),
{
    assert forall|j: int| 0 <= j < elems.len() implies (#[trigger] elems[j]).cleanup_result(
        ctx,
        bank1,
        arg,
    ) == elems[j].cleanup_result(ctx, bank2, arg) by {
        elems[j].cleanup_result_frame(ctx, arg, bank1, bank2);
    }
    if elems.len() > 0 {
        assert forall|j: int| 0 <= j < elems.drop_first().len() implies (
        #[trigger] elems.drop_first()[j]).wf(bank1.len() as int) by {
            assert(elems.drop_first()[j] == elems[j + 1]);
        }
        assert forall|j: int, i: int|
            0 <= j < elems.drop_first().len() && (#[trigger] elems.drop_first()[j].indices().contains(i)) implies bank1[i].same_shape(bank2[i]) by {
            assert(elems.drop_first()[j] == elems[j + 1]);
        }
        lemma_cleanup_prefix_len_frame(elems.drop_first(), ctx, bank1, bank2, arg);
    }
}

} // verus!
