use vstd::prelude::*;

use crate::error::{AnchorError, AnchorResult};

verus! {

/// The number of bytes in a public key.
pub const KEY_LEN: usize = 32;

/// In-memory model of one ledger account as a transaction supplies it: its
/// public key, current owner, signer/writable/executable flags, and the raw
/// byte buffer behind it.
///
/// The buffer is shared between every view that wraps the same handle, so
/// dynamic shared/exclusive access is tracked explicitly: `shared_borrows`
/// counts outstanding shared borrows and `exclusive_borrow` records an
/// outstanding exclusive borrow. A reader or writer that would conflict with
/// an outstanding borrow fails with `AccountBorrowFailed` instead of
/// aliasing.
pub struct AccountHandle {
    pub key: Vec<u8>,
    pub owner: Vec<u8>,
    pub is_signer: bool,
    pub is_writable: bool,
    pub executable: bool,
    pub data: Vec<u8>,
    pub shared_borrows: usize,
    pub exclusive_borrow: bool,
}

impl AccountHandle {
    /// Keys and owners are full-length public keys.
    pub open spec fn wf(self) -> bool {
        &&& self.key@.len() == KEY_LEN
        &&& self.owner@.len() == KEY_LEN
    }

    /// A shared (read) borrow may be taken while no exclusive borrow is
    /// outstanding.
    pub open spec fn may_borrow_shared(self) -> bool {
        !self.exclusive_borrow
    }

    /// An exclusive (write) borrow may be taken only while no borrow at all
    /// is outstanding.
    pub open spec fn may_borrow_exclusive(self) -> bool {
        !self.exclusive_borrow && self.shared_borrows == 0
    }

    /// Everything except the buffer contents and borrow bookkeeping agrees.
    pub open spec fn same_account(self, other: AccountHandle) -> bool {
        &&& self.key@ == other.key@
        &&& self.owner@ == other.owner@
        &&& self.is_signer == other.is_signer
        &&& self.is_writable == other.is_writable
        &&& self.executable == other.executable
    }

    /// Equal in every respect a cleanup decision may depend on: account
    /// fields, borrow bookkeeping and buffer length (not buffer contents).
    pub open spec fn same_shape(self, other: AccountHandle) -> bool {
        &&& self.same_account(other)
        &&& self.shared_borrows == other.shared_borrows
        &&& self.exclusive_borrow == other.exclusive_borrow
        &&& self.data@.len() == other.data@.len()
    }

    pub fn new(
        key: Vec<u8>,
        owner: Vec<u8>,
        is_signer: bool,
        is_writable: bool,
        executable: bool,
        data: Vec<u8>,
    ) -> (r: AccountHandle)
        requires
            key@.len() == KEY_LEN,
            owner@.len() == KEY_LEN,
        ensures
            r.wf(),
            r.key@ == key@,
            r.owner@ == owner@,
            r.is_signer == is_signer,
            r.is_writable == is_writable,
            r.executable == executable,
            r.data@ == data@,
            r.shared_borrows == 0,
            !r.exclusive_borrow,
    {
        AccountHandle {
            key,
            owner,
            is_signer,
            is_writable,
            executable,
            data,
            shared_borrows: 0,
            exclusive_borrow: false,
        }
    }

    /// Take a scoped shared borrow of the buffer: fails on a conflict with
    /// an outstanding exclusive borrow, otherwise hands the bytes back
    /// without changing the borrow state (the borrow ends with the returned
    /// reference).
    pub fn try_borrow_data(&self) -> (r: AnchorResult<&Vec<u8>>)
        ensures
            match r {
                Ok(d) => self.may_borrow_shared() && d@ == self.data@,
                Err(e) => !self.may_borrow_shared() && e == AnchorError::AccountBorrowFailed,
            },
    {
        if self.exclusive_borrow {
            Err(AnchorError::AccountBorrowFailed)
        } else {
            Ok(&self.data)
        }
    }

    /// Acquire a shared borrow that outlives the call (released with
    /// `release_shared`).
    pub fn acquire_shared(&mut self) -> (r: AnchorResult<()>)
        ensures
            match r {
                Ok(()) => {
                    &&& old(self).may_borrow_shared()
                    &&& old(self).shared_borrows < usize::MAX
                    &&& *final(self) == AccountHandle {
                        shared_borrows: (old(self).shared_borrows + 1) as usize,
                        ..*old(self)
                    }
                },
                Err(e) => {
                    &&& !(old(self).may_borrow_shared() && old(self).shared_borrows < usize::MAX)
                    &&& e == AnchorError::AccountBorrowFailed
                    &&& *final(self) == *old(self)
                },
            },
    {
        if self.exclusive_borrow || self.shared_borrows == usize::MAX {
            Err(AnchorError::AccountBorrowFailed)
        } else {
            self.shared_borrows = self.shared_borrows + 1;
            Ok(())
        }
    }

    /// Release one shared borrow.
    pub fn release_shared(&mut self)
        requires
            old(self).shared_borrows > 0,
        ensures
            *final(self) == (AccountHandle {
                shared_borrows: (old(self).shared_borrows - 1) as usize,
                ..*old(self)
            }),
    {
        self.shared_borrows = self.shared_borrows - 1;
    }

    /// Acquire an exclusive borrow that outlives the call (released with
    /// `release_exclusive`).
    pub fn acquire_exclusive(&mut self) -> (r: AnchorResult<()>)
        ensures
            match r {
                Ok(()) => {
                    &&& old(self).may_borrow_exclusive()
                    &&& *final(self) == AccountHandle { exclusive_borrow: true, ..*old(self) }
                },
                Err(e) => {
                    &&& !old(self).may_borrow_exclusive()
                    &&& e == AnchorError::AccountBorrowFailed
                    &&& *final(self) == *old(self)
                },
            },
    {
        if self.exclusive_borrow || self.shared_borrows != 0 {
            Err(AnchorError::AccountBorrowFailed)
        } else {
            self.exclusive_borrow = true;
            Ok(())
        }
    }

    /// Release the outstanding exclusive borrow.
    pub fn release_exclusive(&mut self)
        requires
            old(self).exclusive_borrow,
        ensures
            *final(self) == (AccountHandle { exclusive_borrow: false, ..*old(self) }),
    {
        self.exclusive_borrow = false;
    }
}

/// Every handle of the invocation's account list is well formed.
pub open spec fn bank_wf(bank: Seq<AccountHandle>) -> bool {
    forall|i: int| 0 <= i < bank.len() ==> (#[trigger] bank[i]).wf()
}

/// Account metadata exported for re-serialization into an outbound
/// instruction: the key together with the signer and writable flags.
pub struct AccountMeta {
    pub key: Vec<u8>,
    pub is_signer: bool,
    pub is_writable: bool,
}

/// The meta exported for `h` agrees with the handle, with the signer flag
/// overridden when the caller supplies one.
pub open spec fn meta_matches(m: AccountMeta, h: AccountHandle, is_signer: Option<bool>) -> bool {
    &&& m.key@ == h.key@
    &&& m.is_signer == match is_signer {
        Some(b) => b,
        None => h.is_signer,
    }
    &&& m.is_writable == h.is_writable
}

impl AccountMeta {
    /// Build the meta for one handle, with an optional signer override.
    pub fn for_handle(h: &AccountHandle, is_signer: Option<bool>) -> (r: AccountMeta)
        ensures
            meta_matches(r, *h, is_signer),
    {
        let signer_flag: bool = match is_signer {
            Some(b) => b,
            None => h.is_signer,
        };
        AccountMeta { key: clone_bytes(&h.key), is_signer: signer_flag, is_writable: h.is_writable }
    }
}

/// Byte-for-byte copy of a byte vector.
pub fn clone_bytes(v: &Vec<u8>) -> (r: Vec<u8>)
    ensures
        r@ == v@,
{
    let mut out: Vec<u8> = Vec::new();
    let mut i: usize = 0;
    while i < v.len()
        invariant
            i <= v@.len(),
            out@ == v@.subrange(0, i as int),
        decreases v@.len() - i,
    {
        out.push(v[i]);
        i = i + 1;
        proof {
            assert(out@ =~= v@.subrange(0, i as int));
        }
    }
    proof {
        assert(out@ =~= v@);
    }
    out
}

/// Whether `v` begins with `prefix`.
pub fn starts_with(v: &Vec<u8>, prefix: &Vec<u8>) -> (r: bool)
    ensures
        r == (v@.len() >= prefix@.len() && v@.subrange(0, prefix@.len() as int) == prefix@),
{
    if v.len() < prefix.len() {
        return false;
    }
    let mut i: usize = 0;
    while i < prefix.len()
        invariant
            v@.len() >= prefix@.len(),
            i <= prefix@.len(),
            forall|j: int| 0 <= j < i ==> v@[j] == prefix@[j],
        decreases prefix@.len() - i,
    {
        if v[i] != prefix[i] {
            proof {
                assert(v@.subrange(0, prefix@.len() as int)[i as int] != prefix@[i as int]);
            }
            return false;
        }
        i = i + 1;
    }
    proof {
        assert(v@.subrange(0, prefix@.len() as int) =~= prefix@);
    }
    true
}

/// Copy of the bytes of `v` from position `from` to the end.
pub fn copy_tail(v: &Vec<u8>, from: usize) -> (r: Vec<u8>)
    requires
        from <= v@.len(),
    ensures
        r@ == v@.skip(from as int),
{
    let mut out: Vec<u8> = Vec::new();
    let mut i: usize = from;
    while i < v.len()
        invariant
            from <= i <= v@.len(),
            out@.len() == i - from,
            forall|j: int| 0 <= j < out@.len() ==> #[trigger] out@[j] == v@[from + j],
        decreases v@.len() - i,
    {
        out.push(v[i]);
        i = i + 1;
    }
    proof {
        assert(out@ =~= v@.skip(from as int));
    }
    out
}

/// The contents of `orig` with `tag` followed by `payload` written over
/// its prefix; the bytes past the written region are kept.
pub fn overwrite_prefix(orig: &Vec<u8>, tag: &Vec<u8>, payload: &Vec<u8>) -> (r: Vec<u8>)
    requires
        tag@.len() + payload@.len() <= orig@.len(),
    ensures
        r@ == tag@ + payload@ + orig@.skip((tag@.len() + payload@.len()) as int),
        r@.len() == orig@.len(),
{
    let mut out: Vec<u8> = Vec::new();
    let mut i: usize = 0;
    while i < tag.len()
        invariant
            i <= tag@.len(),
            out@ == tag@.subrange(0, i as int),
        decreases tag@.len() - i,
    {
        out.push(tag[i]);
        i = i + 1;
        proof {
            assert(out@ =~= tag@.subrange(0, i as int));
        }
    }
    proof {
        assert(out@ =~= tag@);
    }
    let mut j: usize = 0;
    while j < payload.len()
        invariant
            j <= payload@.len(),
            out@ == tag@ + payload@.subrange(0, j as int),
        decreases payload@.len() - j,
    {
        out.push(payload[j]);
        j = j + 1;
        proof {
            assert(out@ =~= tag@ + payload@.subrange(0, j as int));
        }
    }
    proof {
        assert(out@ =~= tag@ + payload@);
    }
    let orig_len = orig.len();
    let mut k: usize = tag.len() + payload.len();
    while k < orig.len()
        invariant
            tag@.len() + payload@.len() <= k <= orig@.len(),
            out@ == tag@ + payload@ + orig@.subrange((tag@.len() + payload@.len()) as int, k as int),
        decreases orig@.len() - k,
    {
        out.push(orig[k]);
        k = k + 1;
        proof {
            assert(out@ =~= tag@ + payload@ + orig@.subrange(
                (tag@.len() + payload@.len()) as int,
                k as int,
            ));
        }
    }
    proof {
        assert(out@ =~= tag@ + payload@ + orig@.skip((tag@.len() + payload@.len()) as int));
    }
    out
}

/// Byte-for-byte equality of two byte vectors.
pub fn bytes_eq(a: &Vec<u8>, b: &Vec<u8>) -> (r: bool)
    ensures
        r == (a@ == b@),
{
    if a.len() != b.len() {
        proof {
            assert(a@ != b@);
        }
        return false;
    }
    let mut i: usize = 0;
    while i < a.len()
        invariant
            a@.len() == b@.len(),
            i <= a@.len(),
            forall|j: int| 0 <= j < i ==> a@[j] == b@[j],
        decreases a@.len() - i,
    {
        if a[i] != b[i] {
            proof {
                assert(a@ != b@);
            }
            return false;
        }
        i = i + 1;
    }
    proof {
        assert(a@ =~= b@);
    }
    true
}

} // verus!
