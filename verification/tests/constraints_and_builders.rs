use account_traits::accounts::rest::Rest;
use account_traits::accounts::signer::Signer as SignerView;
use account_traits::constraints::address::{Address, AddressBuilder, AddressKey};
use account_traits::constraints::executable::Executable;
use account_traits::constraints::mutable::Mut;
use account_traits::constraints::owner::Owner;
use account_traits::constraints::signer::Signer;
use account_traits::error::AnchorError;
use account_traits::handle::AccountHandle;
use account_traits::impls::account_info::AccountInfo;
use account_traits::traits::account::{account_key, account_owner};
use account_traits::traits::builder::{BuilderField, BuilderFinish, BuilderStart};
use account_traits::traits::constraint::SupportsConstraint;
use account_traits::traits::AccountsContext;
use account_traits::util::EmptyField;

fn constraint_handle(key: u8, owner: u8, signer: bool, writable: bool, executable: bool) -> AccountHandle {
    AccountHandle::new(vec![key; 32], vec![owner; 32], signer, writable, executable, vec![])
}

fn constraint_ctx() -> AccountsContext {
    AccountsContext::new(vec![9; 32])
}

#[test]
fn address_constraint_checks_key() {
    let bank = vec![constraint_handle(5, 9, false, false, false)];
    let ctx = constraint_ctx();
    let view = AccountInfo { index: 0 };
    assert!(view.late_validation(&Address(vec![5; 32]), &ctx, &bank).is_ok());
    assert_eq!(
        view.late_validation(&Address(vec![6; 32]), &ctx, &bank).unwrap_err(),
        AnchorError::InvalidArgument
    );
    assert!(view.early_validation(&Address(vec![6; 32]), &ctx, &bank).is_ok());
    assert!(SupportsConstraint::cleanup(&view, &Address(vec![6; 32]), &ctx, &bank).is_ok());
}

#[test]
fn owner_constraint_checks_owner() {
    let bank = vec![constraint_handle(5, 9, false, false, false)];
    let ctx = constraint_ctx();
    let view = AccountInfo { index: 0 };
    assert!(view.late_validation(&Owner(vec![9; 32]), &ctx, &bank).is_ok());
    assert_eq!(
        view.late_validation(&Owner(vec![5; 32]), &ctx, &bank).unwrap_err(),
        AnchorError::InvalidArgument
    );
}

#[test]
fn signer_constraint_checks_signature() {
    let signed = vec![constraint_handle(5, 9, true, false, false)];
    let unsigned = vec![constraint_handle(5, 9, false, false, false)];
    let ctx = constraint_ctx();
    let view = AccountInfo { index: 0 };
    assert!(view.late_validation(&Signer, &ctx, &signed).is_ok());
    assert_eq!(
        view.late_validation(&Signer, &ctx, &unsigned).unwrap_err(),
        AnchorError::MissingRequiredSignature
    );
}

#[test]
fn mut_constraint_checks_writability() {
    let writable = vec![constraint_handle(5, 9, false, true, false)];
    let frozen = vec![constraint_handle(5, 9, false, false, false)];
    let ctx = constraint_ctx();
    let view = AccountInfo { index: 0 };
    assert!(view.late_validation(&Mut, &ctx, &writable).is_ok());
    assert_eq!(
        view.late_validation(&Mut, &ctx, &frozen).unwrap_err(),
        AnchorError::AccountBorrowFailed
    );
}

#[test]
fn executable_constraint_checks_flag() {
    let program = vec![constraint_handle(5, 9, false, false, true)];
    let wallet = vec![constraint_handle(5, 9, false, false, false)];
    let ctx = constraint_ctx();
    let view = AccountInfo { index: 0 };
    assert!(view.late_validation(&Executable, &ctx, &program).is_ok());
    assert_eq!(
        view.late_validation(&Executable, &ctx, &wallet).unwrap_err(),
        AnchorError::InvalidArgument
    );
}

#[test]
fn constraint_forwarding_through_wrappers() {
    let bank = vec![constraint_handle(5, 9, false, false, false)];
    let ctx = constraint_ctx();
    let view = SignerView(AccountInfo { index: 0 });
    assert!(view.late_validation(&Address(vec![5; 32]), &ctx, &bank).is_ok());
    let boxed = Box::new(AccountInfo { index: 0 });
    assert_eq!(
        boxed.late_validation(&Owner(vec![5; 32]), &ctx, &bank).unwrap_err(),
        AnchorError::InvalidArgument
    );
}

#[test]
fn address_builder_requires_its_key() {
    let builder: AddressBuilder<EmptyField> = AddressBuilder::new();
    let finished: Address =
        BuilderField::<AddressKey>::set_field(builder, vec![8; 32]).finish();
    assert_eq!(finished.0, vec![8; 32]);
}

#[test]
fn marker_builders_finish_directly() {
    let s: Signer = BuilderStart::new();
    let s2: Signer = s.finish();
    let _ = s2;
    let m: Mut = BuilderStart::new();
    let m2: Mut = m.finish();
    let _ = m2;
}

#[test]
fn constraint_forwarding_through_lists() {
    let bank = vec![
        constraint_handle(5, 9, true, false, false),
        constraint_handle(6, 9, false, false, false),
    ];
    let ctx = constraint_ctx();
    let list = Rest(vec![AccountInfo { index: 0 }, AccountInfo { index: 1 }]);
    // The second element is not a signer, so the late hook short-circuits
    // there.
    assert_eq!(
        list.late_validation(&Signer, &ctx, &bank).unwrap_err(),
        AnchorError::MissingRequiredSignature
    );
    assert!(list.early_validation(&Signer, &ctx, &bank).is_ok());
}

#[test]
fn single_account_getters_read_the_bank() {
    let bank = vec![constraint_handle(5, 9, false, false, false)];
    let view = AccountInfo { index: 0 };
    assert_eq!(account_key(&view, &bank), &vec![5; 32]);
    assert_eq!(account_owner(&view, &bank), &vec![9; 32]);
}
