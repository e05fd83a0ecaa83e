use account_traits::accounts::bytemuck_account::BytemuckAccount;
use account_traits::accounts::mutable::{Mut, ReadOnly};
use account_traits::accounts::program::Program;
use account_traits::accounts::seeded::Seeded;
use account_traits::error::{AnchorError, CustomErrorGenerator};
use account_traits::handle::{AccountHandle, AccountMeta};
use account_traits::impls::account_info::AccountInfo;
use account_traits::maybe_bool::Flag;
use account_traits::programs::system::System;
use account_traits::traits::account::{Accounts, DecodeAccounts, ValidateAccounts};
use account_traits::traits::account_data::Status;
use account_traits::traits::program::CurrentProgram;
use account_traits::traits::seeds::{find_program_address, SeedList, SeedProgram, SeedsWithBump};
use account_traits::traits::AccountsContext;

fn handle_with_key(key: Vec<u8>, owner: u8, writable: bool, data: Vec<u8>) -> AccountHandle {
    AccountHandle::new(key, vec![owner; 32], false, writable, false, data)
}

fn plain_handle(key: u8, owner: u8, data: Vec<u8>) -> AccountHandle {
    AccountHandle::new(vec![key; 32], vec![owner; 32], false, true, false, data)
}

fn ctx_with_pid(pid: u8) -> AccountsContext {
    AccountsContext::new(vec![pid; 32])
}

#[test]
fn or_with_true_dominates() {
    assert_eq!(Flag::True.or(Flag::True), Flag::True);
    assert_eq!(Flag::True.or(Flag::False), Flag::True);
    assert_eq!(Flag::True.or(Flag::Unknown), Flag::True);
    assert_eq!(Flag::False.or(Flag::True), Flag::True);
    assert_eq!(Flag::Unknown.or(Flag::True), Flag::True);
}

#[test]
fn or_of_two_unknowns_degrades_to_false() {
    assert_eq!(Flag::Unknown.or(Flag::Unknown), Flag::False);
}

#[test]
fn or_false_is_identity() {
    assert_eq!(Flag::False.or(Flag::True), Flag::True);
    assert_eq!(Flag::False.or(Flag::False), Flag::False);
    assert_eq!(Flag::False.or(Flag::Unknown), Flag::Unknown);
    assert_eq!(Flag::Unknown.or(Flag::False), Flag::Unknown);
}

#[test]
fn and_with_unknown_degrades_to_false() {
    assert_eq!(Flag::Unknown.and(Flag::True), Flag::False);
    assert_eq!(Flag::True.and(Flag::Unknown), Flag::False);
    assert_eq!(Flag::Unknown.and(Flag::Unknown), Flag::False);
    assert_eq!(Flag::True.and(Flag::True), Flag::True);
    assert_eq!(Flag::True.and(Flag::False), Flag::False);
}

#[test]
fn not_flips_known_and_keeps_unknown() {
    assert_eq!(Flag::True.not(), Flag::False);
    assert_eq!(Flag::False.not(), Flag::True);
    assert_eq!(Flag::Unknown.not(), Flag::Unknown);
}

#[test]
fn derivation_agrees_with_ledger_library() {
    let seeds: Vec<Vec<u8>> = vec![b"vault".to_vec(), vec![3u8; 32]];
    let pid = vec![7u8; 32];
    let ours = find_program_address(&seeds, &pid);
    let refs: Vec<&[u8]> = seeds.iter().map(|s| s.as_slice()).collect();
    let addr = pinocchio::address::Address::try_from(pid.as_slice()).unwrap();
    let theirs = pinocchio::address::Address::try_find_program_address(&refs, &addr);
    match (ours, theirs) {
        (Some((a, b)), Some((ea, eb))) => {
            assert_eq!(a, ea.to_bytes().to_vec());
            assert_eq!(b, eb);
        },
        (None, None) => panic!("no viable bump found for the test seeds"),
        _ => panic!("derivation disagreement"),
    }
}

#[test]
fn explicit_bump_recomputes_same_address() {
    let seeds: Vec<Vec<u8>> = vec![b"vault".to_vec(), vec![5u8; 32]];
    let pid = vec![7u8; 32];
    let (addr, bump) = find_program_address(&seeds, &pid).unwrap();
    let with_bump = SeedsWithBump { seeds: SeedList(seeds), bump };
    let recomputed = with_bump.create_program_address(&pid).unwrap();
    assert_eq!(recomputed, addr);
}

#[test]
fn seeded_validate_mismatch_leaves_record_absent() {
    // Seeds ["vault", owner_key] whose computed canonical address does not
    // equal the handle's key: validate must fail with InvalidSeeds and the
    // derived-address record must stay absent.
    let owner_key = vec![3u8; 32];
    let seeds: Vec<Vec<u8>> = vec![b"vault".to_vec(), owner_key];
    let pid = 7u8;
    let ctx = ctx_with_pid(pid);
    let (derived, _bump) = find_program_address(&seeds, &ctx.current_program_id).unwrap();
    let mut wrong_key = derived.clone();
    wrong_key[0] = wrong_key[0].wrapping_add(1);
    let bank = vec![handle_with_key(wrong_key, pid, true, vec![])];
    let mut cursor = 0usize;
    let mut v: Seeded<AccountInfo, SeedList, CurrentProgram> =
        Seeded::try_accounts(&ctx, &bank, &mut cursor, ()).unwrap();
    assert!(v.seeds.is_none());
    let r = v.validate(&ctx, &bank, (SeedList(seeds), ()));
    assert_eq!(r.unwrap_err(), AnchorError::InvalidSeeds);
    assert!(v.seeds.is_none());
}

#[test]
fn seeded_validate_match_records_bump() {
    let seeds: Vec<Vec<u8>> = vec![b"vault".to_vec(), vec![4u8; 32]];
    let pid = 7u8;
    let ctx = ctx_with_pid(pid);
    let (derived, bump) = find_program_address(&seeds, &ctx.current_program_id).unwrap();
    let bank = vec![handle_with_key(derived, pid, true, vec![])];
    let mut cursor = 0usize;
    let mut v: Seeded<AccountInfo, SeedList, CurrentProgram> =
        Seeded::try_accounts(&ctx, &bank, &mut cursor, ()).unwrap();
    let r = v.validate(&ctx, &bank, (SeedList(seeds.clone()), ()));
    assert!(r.is_ok());
    let record = v.seeds.as_ref().unwrap();
    assert_eq!(record.bump, bump);
    assert_eq!(record.seeds.0, seeds);
}

#[test]
fn seeded_revalidation_rederives() {
    // Validation is not idempotent in its argument: a second call with a
    // different seed list re-derives; here the new derivation no longer
    // matches the key, so it fails, and the earlier record is kept.
    let seeds1: Vec<Vec<u8>> = vec![b"vault".to_vec(), vec![4u8; 32]];
    let seeds2: Vec<Vec<u8>> = vec![b"vault".to_vec(), vec![5u8; 32]];
    let pid = 7u8;
    let ctx = ctx_with_pid(pid);
    let (derived, bump1) = find_program_address(&seeds1, &ctx.current_program_id).unwrap();
    let bank = vec![handle_with_key(derived, pid, true, vec![])];
    let mut cursor = 0usize;
    let mut v: Seeded<AccountInfo, SeedList, CurrentProgram> =
        Seeded::try_accounts(&ctx, &bank, &mut cursor, ()).unwrap();
    assert!(v.validate(&ctx, &bank, (SeedList(seeds1), ())).is_ok());
    assert_eq!(v.seeds.as_ref().unwrap().bump, bump1);
    let r = v.validate(&ctx, &bank, (SeedList(seeds2), ()));
    assert_eq!(r.unwrap_err(), AnchorError::InvalidSeeds);
    assert!(v.seeds.is_some());
}

#[test]
fn seeded_validate_with_explicit_bump() {
    let seeds: Vec<Vec<u8>> = vec![b"pool".to_vec()];
    let pid = 7u8;
    let ctx = ctx_with_pid(pid);
    let (derived, bump) = find_program_address(&seeds, &ctx.current_program_id).unwrap();
    let bank = vec![handle_with_key(derived, pid, true, vec![])];
    let mut cursor = 0usize;
    let mut v: Seeded<AccountInfo, SeedList, CurrentProgram> =
        Seeded::try_accounts(&ctx, &bank, &mut cursor, ()).unwrap();
    let arg = SeedsWithBump { seeds: SeedList(seeds), bump };
    assert!(v.validate(&ctx, &bank, (arg, ())).is_ok());
    assert_eq!(v.seeds.as_ref().unwrap().bump, bump);
}

#[test]
fn program_validate_checks_identity() {
    // System's id is the all-zero key.
    let good = vec![handle_with_key(vec![0u8; 32], 9, false, vec![])];
    let bad = vec![plain_handle(1, 9, vec![])];
    let ctx = ctx_with_pid(9);
    let mut cursor = 0usize;
    let mut v: Program<System, AccountInfo> =
        Program::try_accounts(&ctx, &good, &mut cursor, ()).unwrap();
    assert!(v.validate(&ctx, &good, ()).is_ok());
    let mut cursor2 = 0usize;
    let mut w: Program<System, AccountInfo> =
        Program::try_accounts(&ctx, &bad, &mut cursor2, ()).unwrap();
    assert_eq!(w.validate(&ctx, &bad, ()).unwrap_err(), AnchorError::IncorrectProgramId);
}

#[test]
fn bytemuck_validate_checks_owner_and_tag() {
    let ctx = ctx_with_pid(9);
    let bank = vec![plain_handle(1, 9, vec![7, 7, 7, 7, 5, 1])];
    let mut cursor = 0usize;
    let mut v: BytemuckAccount<Status, Mut<AccountInfo>, CurrentProgram> =
        BytemuckAccount::try_accounts(&ctx, &bank, &mut cursor, ()).unwrap();
    assert!(v.validate(&ctx, &bank, ()).is_ok());

    let wrong_owner = vec![plain_handle(1, 8, vec![7, 7, 7, 7, 5, 1])];
    let mut cursor2 = 0usize;
    let mut w: BytemuckAccount<Status, Mut<AccountInfo>, CurrentProgram> =
        BytemuckAccount::try_accounts(&ctx, &wrong_owner, &mut cursor2, ()).unwrap();
    assert_eq!(w.validate(&ctx, &wrong_owner, ()).unwrap_err(), AnchorError::InvalidAccountOwner);

    let wrong_tag = vec![plain_handle(1, 9, vec![0, 0, 0, 0, 5, 1])];
    let mut cursor3 = 0usize;
    let mut u: BytemuckAccount<Status, Mut<AccountInfo>, CurrentProgram> =
        BytemuckAccount::try_accounts(&ctx, &wrong_tag, &mut cursor3, ()).unwrap();
    assert_eq!(u.validate(&ctx, &wrong_tag, ()).unwrap_err(), AnchorError::InvalidAccountData);
}

#[test]
fn bytemuck_data_reads_checked_window() {
    let ctx = ctx_with_pid(9);
    let bank = vec![plain_handle(1, 9, vec![7, 7, 7, 7, 5, 1])];
    let mut cursor = 0usize;
    let v: BytemuckAccount<Status, Mut<AccountInfo>, CurrentProgram> =
        BytemuckAccount::try_accounts(&ctx, &bank, &mut cursor, ()).unwrap();
    let s = v.data(&bank).unwrap();
    assert_eq!(s.level, 5);
    assert!(s.enabled);
}

#[test]
fn bytemuck_data_rejects_invalid_pattern() {
    let ctx = ctx_with_pid(9);
    // The flag byte 2 is not a valid bit pattern for the layout.
    let bank = vec![plain_handle(1, 9, vec![7, 7, 7, 7, 5, 2])];
    let mut cursor = 0usize;
    let v: BytemuckAccount<Status, Mut<AccountInfo>, CurrentProgram> =
        BytemuckAccount::try_accounts(&ctx, &bank, &mut cursor, ()).unwrap();
    assert_eq!(v.data(&bank).unwrap_err(), AnchorError::InvalidAccountData);
}

#[test]
fn bytemuck_data_fails_on_borrow_conflict() {
    let ctx = ctx_with_pid(9);
    let mut h = plain_handle(1, 9, vec![7, 7, 7, 7, 5, 1]);
    h.exclusive_borrow = true;
    let bank = vec![h];
    let mut cursor = 0usize;
    let v: BytemuckAccount<Status, Mut<AccountInfo>, CurrentProgram> =
        BytemuckAccount::try_accounts(&ctx, &bank, &mut cursor, ()).unwrap();
    assert_eq!(v.data(&bank).unwrap_err(), AnchorError::AccountBorrowFailed);
}

#[test]
fn bytemuck_write_data_overwrites_window() {
    let ctx = ctx_with_pid(9);
    let mut bank = vec![plain_handle(1, 9, vec![7, 7, 7, 7, 5, 1])];
    let mut cursor = 0usize;
    let v: BytemuckAccount<Status, Mut<AccountInfo>, CurrentProgram> =
        BytemuckAccount::try_accounts(&ctx, &bank, &mut cursor, ()).unwrap();
    let newval = Status { level: 9, enabled: false };
    assert!(v.write_data(&mut bank, &newval).is_ok());
    assert_eq!(bank[0].data, vec![7, 7, 7, 7, 9, 0]);
}

#[test]
fn bytemuck_readonly_fast_path_ignores_borrows() {
    let ctx = ctx_with_pid(9);
    let mut h = AccountHandle::new(vec![1; 32], vec![9; 32], false, false, false, vec![
        7, 7, 7, 7, 3, 0,
    ]);
    h.exclusive_borrow = true;
    let bank = vec![h];
    let mut cursor = 0usize;
    let v: BytemuckAccount<Status, ReadOnly<AccountInfo>, CurrentProgram> =
        BytemuckAccount::try_accounts(&ctx, &bank, &mut cursor, ()).unwrap();
    let s = v.data_readonly(&bank).unwrap();
    assert_eq!(s.level, 3);
    assert!(!s.enabled);
}

#[test]
fn metas_export_reflects_handle_flags() {
    let bank = vec![AccountHandle::new(
        vec![5; 32],
        vec![9; 32],
        true,
        true,
        false,
        vec![],
    )];
    let ctx = ctx_with_pid(9);
    let mut cursor = 0usize;
    let v = AccountInfo::try_accounts(&ctx, &bank, &mut cursor, ()).unwrap();
    let metas: Vec<AccountMeta> = v.to_account_metas(&bank, None);
    assert_eq!(metas.len(), 1);
    assert_eq!(metas[0].key, vec![5; 32]);
    assert!(metas[0].is_signer);
    assert!(metas[0].is_writable);
    let overridden = v.to_account_metas(&bank, Some(false));
    assert!(!overridden[0].is_signer);
    let infos = v.to_account_infos();
    assert_eq!(infos, vec![0usize]);
}

#[test]
fn borrow_bookkeeping_tracks_conflicts() {
    let mut h = plain_handle(1, 9, vec![1, 2, 3]);
    assert!(h.acquire_shared().is_ok());
    assert!(h.acquire_shared().is_ok());
    assert_eq!(h.acquire_exclusive().unwrap_err(), AnchorError::AccountBorrowFailed);
    h.release_shared();
    h.release_shared();
    assert!(h.acquire_exclusive().is_ok());
    assert_eq!(h.acquire_shared().unwrap_err(), AnchorError::AccountBorrowFailed);
    assert_eq!(h.try_borrow_data().unwrap_err(), AnchorError::AccountBorrowFailed);
    h.release_exclusive();
    assert_eq!(h.try_borrow_data().unwrap(), &vec![1, 2, 3]);
}

#[test]
fn error_generator_hooks_remap() {
    let kept = ().generate(AnchorError::InvalidArgument);
    assert_eq!(kept, AnchorError::InvalidArgument);
    let replaced = AnchorError::InvalidSeeds.generate(AnchorError::InvalidArgument);
    assert_eq!(replaced, AnchorError::InvalidSeeds);
}

#[test]
fn seeded_validate_accepts_bare_seed_list() {
    let seeds: Vec<Vec<u8>> = vec![b"escrow".to_vec()];
    let pid = 7u8;
    let ctx = ctx_with_pid(pid);
    let (derived, bump) = find_program_address(&seeds, &ctx.current_program_id).unwrap();
    let bank = vec![handle_with_key(derived, pid, true, vec![])];
    let mut cursor = 0usize;
    let mut v: Seeded<AccountInfo, SeedList, CurrentProgram> =
        Seeded::try_accounts(&ctx, &bank, &mut cursor, ()).unwrap();
    assert!(v.validate(&ctx, &bank, SeedList(seeds)).is_ok());
    assert_eq!(v.seeds.as_ref().unwrap().bump, bump);
}

#[test]
fn seed_program_of_static_program_is_its_id() {
    let ctx = ctx_with_pid(7);
    assert_eq!(System::seed_program_id(&ctx), vec![0u8; 32]);
}
