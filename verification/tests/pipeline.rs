use account_traits::accounts::borsh_account::BorshAccount;
use account_traits::accounts::mutable::{Mut, Mutability, ReadOnly};
use account_traits::accounts::rest::Rest;
use account_traits::accounts::signer::Signer;
use account_traits::error::AnchorError;
use account_traits::handle::AccountHandle;
use account_traits::impls::account_info::AccountInfo;
use account_traits::impls::array::AccountArray;
use account_traits::maybe_bool::{Flag, False};
use account_traits::traits::account::Accounts;
use account_traits::traits::account::{CleanupAccounts, DecodeAccounts, ValidateAccounts};
use account_traits::traits::account_data::{AccountData, Counter, RawData};
use account_traits::traits::program::CurrentProgram;
use account_traits::traits::AccountsContext;

fn mk_handle(key: u8, owner: u8, signer: bool, writable: bool, data: Vec<u8>) -> AccountHandle {
    AccountHandle::new(vec![key; 32], vec![owner; 32], signer, writable, false, data)
}

fn mk_ctx(pid: u8) -> AccountsContext {
    AccountsContext::new(vec![pid; 32])
}

#[test]
fn leaf_decode_consumes_one_handle() {
    let bank = vec![mk_handle(1, 9, false, false, vec![]), mk_handle(2, 9, false, false, vec![])];
    let ctx = mk_ctx(9);
    let mut cursor = 0usize;
    let a = AccountInfo::try_accounts(&ctx, &bank, &mut cursor, ()).unwrap();
    assert_eq!(a.index, 0);
    assert_eq!(cursor, 1);
    let b = AccountInfo::try_accounts(&ctx, &bank, &mut cursor, ()).unwrap();
    assert_eq!(b.index, 1);
    assert_eq!(cursor, 2);
}

#[test]
fn leaf_decode_exhausted_fails() {
    let bank: Vec<AccountHandle> = Vec::new();
    let ctx = mk_ctx(9);
    let mut cursor = 0usize;
    let r = AccountInfo::try_accounts(&ctx, &bank, &mut cursor, ());
    assert_eq!(r.unwrap_err(), AnchorError::InsufficientAccounts);
}

#[test]
fn borsh_decode_parses_tagged_payload() {
    let bank = vec![mk_handle(1, 9, false, true, vec![1, 2, 3, 4, 10, 20, 30])];
    let ctx = mk_ctx(9);
    let mut cursor = 0usize;
    let v = BorshAccount::<RawData, Mut<AccountInfo>, CurrentProgram>::try_accounts(
        &ctx, &bank, &mut cursor, (),
    )
    .unwrap();
    assert_eq!(v.data.bytes, vec![10, 20, 30]);
    assert_eq!(cursor, 1);
}

#[test]
fn borsh_decode_rejects_wrong_tag() {
    let bank = vec![mk_handle(1, 9, false, true, vec![4, 3, 2, 1, 10])];
    let ctx = mk_ctx(9);
    let mut cursor = 0usize;
    let r = BorshAccount::<RawData, Mut<AccountInfo>, CurrentProgram>::try_accounts(
        &ctx, &bank, &mut cursor, (),
    );
    assert_eq!(r.err().unwrap(), AnchorError::InvalidAccountData);
}

#[test]
fn borsh_readonly_decode_takes_no_borrow() {
    // Tag bytes 1,2,3,4 plus payload, decoded under a statically read-only
    // wrapper while an exclusive borrow is outstanding: the decode must
    // still succeed because the read-only path takes no dynamic borrow.
    let mut h = mk_handle(1, 9, false, false, vec![1, 2, 3, 4, 42]);
    h.exclusive_borrow = true;
    let bank = vec![h];
    let ctx = mk_ctx(9);
    let mut cursor = 0usize;
    let v = BorshAccount::<RawData, ReadOnly<AccountInfo>, CurrentProgram>::try_accounts(
        &ctx, &bank, &mut cursor, (),
    )
    .unwrap();
    assert_eq!(v.data.bytes, vec![42]);
}

#[test]
fn borsh_mutable_decode_fails_on_borrow_conflict() {
    let mut h = mk_handle(1, 9, false, true, vec![1, 2, 3, 4, 42]);
    h.exclusive_borrow = true;
    let bank = vec![h];
    let ctx = mk_ctx(9);
    let mut cursor = 0usize;
    let r = BorshAccount::<RawData, Mut<AccountInfo>, CurrentProgram>::try_accounts(
        &ctx, &bank, &mut cursor, (),
    );
    assert_eq!(r.err().unwrap(), AnchorError::AccountBorrowFailed);
}

#[test]
fn borsh_validate_checks_owner() {
    let bank = vec![mk_handle(1, 8, false, true, vec![1, 2, 3, 4])];
    let ctx = mk_ctx(9);
    let mut cursor = 0usize;
    let mut v = BorshAccount::<RawData, Mut<AccountInfo>, CurrentProgram>::try_accounts(
        &ctx, &bank, &mut cursor, (),
    )
    .unwrap();
    let r = v.validate(&ctx, &bank, ());
    assert_eq!(r.unwrap_err(), AnchorError::InvalidAccountOwner);
}

#[test]
fn borsh_round_trip_leaves_buffer_unchanged() {
    // Decode, mutate nothing, clean up: the buffer must be byte-for-byte
    // what it was.
    let original = vec![1u8, 2, 3, 4, 5, 6, 7, 8];
    let mut bank = vec![mk_handle(1, 9, false, true, original.clone())];
    let ctx = mk_ctx(9);
    let mut cursor = 0usize;
    let v = BorshAccount::<RawData, Mut<AccountInfo>, CurrentProgram>::try_accounts(
        &ctx, &bank, &mut cursor, (),
    )
    .unwrap();
    let r = CleanupAccounts::cleanup(&v, &ctx, &mut bank, ());
    assert!(r.is_ok());
    assert_eq!(bank[0].data, original);
}

#[test]
fn borsh_cleanup_writes_back_mutation() {
    let mut bank = vec![mk_handle(1, 9, false, true, vec![1, 2, 3, 4, 5, 6])];
    let ctx = mk_ctx(9);
    let mut cursor = 0usize;
    let mut v = BorshAccount::<RawData, Mut<AccountInfo>, CurrentProgram>::try_accounts(
        &ctx, &bank, &mut cursor, (),
    )
    .unwrap();
    v.data.bytes = vec![9, 9];
    let r = CleanupAccounts::cleanup(&v, &ctx, &mut bank, ());
    assert!(r.is_ok());
    assert_eq!(bank[0].data, vec![1, 2, 3, 4, 9, 9]);
}

#[test]
fn borsh_cleanup_skips_non_writable_handle() {
    let original = vec![1u8, 2, 3, 4, 5];
    let mut bank = vec![mk_handle(1, 9, false, false, original.clone())];
    let ctx = mk_ctx(9);
    let mut cursor = 0usize;
    let mut v = BorshAccount::<RawData, Mut<AccountInfo>, CurrentProgram>::try_accounts(
        &ctx, &bank, &mut cursor, (),
    )
    .unwrap();
    v.data.bytes = vec![9, 9, 9, 9, 9];
    let r = CleanupAccounts::cleanup(&v, &ctx, &mut bank, ());
    assert!(r.is_ok());
    assert_eq!(bank[0].data, original);
}

#[test]
fn mutability_validate_rejects_non_writable() {
    // A Mutability-asserting-mutable view over a handle whose dynamic
    // writable flag is false must fail with the borrow-conflict error.
    let bank = vec![mk_handle(1, 9, false, false, vec![])];
    let ctx = mk_ctx(9);
    let mut cursor = 0usize;
    let mut v: Mut<AccountInfo> =
        Mutability::try_accounts(&ctx, &bank, &mut cursor, ()).unwrap();
    let r = v.validate(&ctx, &bank, ());
    assert_eq!(r.unwrap_err(), AnchorError::AccountBorrowFailed);
}

#[test]
fn mutability_validate_accepts_writable() {
    let bank = vec![mk_handle(1, 9, false, true, vec![])];
    let ctx = mk_ctx(9);
    let mut cursor = 0usize;
    let mut v: Mut<AccountInfo> =
        Mutability::try_accounts(&ctx, &bank, &mut cursor, ()).unwrap();
    assert!(v.validate(&ctx, &bank, ()).is_ok());
}

#[test]
fn readonly_validate_rejects_writable() {
    let bank = vec![mk_handle(1, 9, false, true, vec![])];
    let ctx = mk_ctx(9);
    let mut cursor = 0usize;
    let mut v: Mutability<AccountInfo, False> =
        Mutability::try_accounts(&ctx, &bank, &mut cursor, ()).unwrap();
    let r = v.validate(&ctx, &bank, ());
    assert_eq!(r.unwrap_err(), AnchorError::AccountBorrowFailed);
}

#[test]
fn signer_validate_requires_signature() {
    let bank = vec![mk_handle(1, 9, false, false, vec![])];
    let ctx = mk_ctx(9);
    let mut cursor = 0usize;
    let mut v: Signer<AccountInfo> = Signer::try_accounts(&ctx, &bank, &mut cursor, ()).unwrap();
    let r = v.validate(&ctx, &bank, ());
    assert_eq!(r.unwrap_err(), AnchorError::MissingRequiredSignature);
}

#[test]
fn signer_validate_accepts_signer() {
    let bank = vec![mk_handle(1, 9, true, false, vec![])];
    let ctx = mk_ctx(9);
    let mut cursor = 0usize;
    let mut v: Signer<AccountInfo> = Signer::try_accounts(&ctx, &bank, &mut cursor, ()).unwrap();
    assert!(v.validate(&ctx, &bank, ()).is_ok());
}

#[test]
fn rest_decodes_every_remaining_handle() {
    // A greedy-remainder wrapper over 3 handles must produce exactly 3
    // elements and leave the sequence empty.
    let bank = vec![
        mk_handle(1, 9, false, false, vec![]),
        mk_handle(2, 9, false, false, vec![]),
        mk_handle(3, 9, false, false, vec![]),
    ];
    let ctx = mk_ctx(9);
    let mut cursor = 0usize;
    let v: Rest<AccountInfo> = Rest::try_accounts(&ctx, &bank, &mut cursor, ()).unwrap();
    assert_eq!(v.0.len(), 3);
    assert_eq!(cursor, 3);
    assert_eq!(v.0[0].index, 0);
    assert_eq!(v.0[1].index, 1);
    assert_eq!(v.0[2].index, 2);
}

#[test]
fn rest_over_empty_sequence_is_empty() {
    let bank: Vec<AccountHandle> = Vec::new();
    let ctx = mk_ctx(9);
    let mut cursor = 0usize;
    let v: Rest<AccountInfo> = Rest::try_accounts(&ctx, &bank, &mut cursor, ()).unwrap();
    assert_eq!(v.0.len(), 0);
    assert_eq!(cursor, 0);
}

#[test]
fn array_decode_failure_is_all_or_nothing() {
    // Element 2 of 5 fails during decode: no partially built array escapes
    // (the two finished elements are released with the partial list).
    let bank = vec![mk_handle(1, 9, false, false, vec![]), mk_handle(2, 9, false, false, vec![])];
    let ctx = mk_ctx(9);
    let mut cursor = 0usize;
    let r: Result<AccountArray<AccountInfo>, AnchorError> =
        AccountArray::try_accounts(&ctx, &bank, &mut cursor, (5usize, ()));
    assert_eq!(r.err().unwrap(), AnchorError::InsufficientAccounts);
}

#[test]
fn array_decodes_exact_count() {
    let bank = vec![
        mk_handle(1, 9, false, false, vec![]),
        mk_handle(2, 9, false, false, vec![]),
        mk_handle(3, 9, false, false, vec![]),
    ];
    let ctx = mk_ctx(9);
    let mut cursor = 0usize;
    let v: AccountArray<AccountInfo> =
        AccountArray::try_accounts(&ctx, &bank, &mut cursor, (2usize, ())).unwrap();
    assert_eq!(v.0.len(), 2);
    assert_eq!(cursor, 2);
}

#[test]
fn boxed_view_forwards_decode() {
    let bank = vec![mk_handle(1, 9, false, false, vec![])];
    let ctx = mk_ctx(9);
    let mut cursor = 0usize;
    let v: Box<AccountInfo> = Box::<AccountInfo>::try_accounts(&ctx, &bank, &mut cursor, ()).unwrap();
    assert_eq!(v.index, 0);
    assert_eq!(cursor, 1);
}

#[test]
fn signer_wrapper_advertises_true_flag() {
    assert_eq!(Signer::<AccountInfo>::runtime_mutable(), Flag::Unknown);
    assert_eq!(Mut::<AccountInfo>::runtime_mutable(), Flag::True);
    assert_eq!(Mutability::<AccountInfo, False>::runtime_mutable(), Flag::False);
}

#[test]
fn array_decodes_one_argument_per_element() {
    let bank = vec![mk_handle(1, 9, false, false, vec![]), mk_handle(2, 9, false, false, vec![])];
    let ctx = mk_ctx(9);
    let mut cursor = 0usize;
    let args: Vec<()> = vec![(), ()];
    let v: AccountArray<AccountInfo> =
        AccountArray::try_accounts(&ctx, &bank, &mut cursor, args).unwrap();
    assert_eq!(v.0.len(), 2);
    assert_eq!(cursor, 2);
    assert_eq!(v.0[1].index, 1);
}

#[test]
fn counter_codec_uses_little_endian_bytes() {
    let c = Counter { value: 0x0102030405060708 };
    let bytes = c.serialize();
    assert_eq!(bytes, vec![8, 7, 6, 5, 4, 3, 2, 1]);
    let back = Counter::try_from_slice(&bytes).unwrap();
    assert_eq!(back.value, 0x0102030405060708);
    assert_eq!(
        Counter::try_from_slice(&[1, 2, 3]).unwrap_err(),
        AnchorError::InvalidAccountData
    );
}

#[test]
fn counter_account_round_trip() {
    let original = vec![2u8, 2, 2, 2, 42, 0, 0, 0, 0, 0, 0, 0];
    let mut bank = vec![mk_handle(1, 9, false, true, original.clone())];
    let ctx = mk_ctx(9);
    let mut cursor = 0usize;
    let mut v = BorshAccount::<Counter, Mut<AccountInfo>, CurrentProgram>::try_accounts(
        &ctx, &bank, &mut cursor, (),
    )
    .unwrap();
    assert_eq!(v.data.value, 42);
    v.data.value = 300;
    let r = CleanupAccounts::cleanup(&v, &ctx, &mut bank, ());
    assert!(r.is_ok());
    assert_eq!(bank[0].data, vec![2, 2, 2, 2, 44, 1, 0, 0, 0, 0, 0, 0]);
}
