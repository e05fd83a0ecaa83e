use vstd::prelude::*;

use crate::error::{AnchorError, AnchorResult};
use crate::handle::{meta_matches, AccountHandle, AccountMeta};
use crate::maybe_bool::Flag;
use crate::traits::account::{
    Accounts, CleanupAccounts, DecodeAccounts, SingleAccount, ValidateAccounts,
};
use crate::traits::AccountsContext;

verus! {

/// The leaf view: a reference, by position, to one raw handle of the
/// invocation's account list. It makes no static capability claim (both
/// flags are `Unknown`), performs no semantic check, and reconciles
/// nothing.
#[derive(Clone, Copy, Debug, PartialEq, Eq, Structural)]
pub struct AccountInfo {
    pub index: usize,
}

impl Accounts for AccountInfo {
    open spec fn indices(&self) -> Seq<int> {
        seq![self.index as int]
    }

    open spec fn wf(&self, bank_len: int) -> bool {
        (self.index as int) < bank_len
    }

    open spec fn mutable() -> Flag {
        Flag::Unknown
    }

    open spec fn can_sign() -> Flag {
        Flag::Unknown
    }

    proof fn wf_indices(&self, bank_len: int) {
    }

    fn runtime_mutable() -> (r: Flag) {
        Flag::Unknown
    }

    fn to_account_infos(&self) -> (r: Vec<usize>) {
        let mut v: Vec<usize> = Vec::new();
        v.push(self.index);
        v
    }

    fn to_account_metas(&self, bank: &Vec<AccountHandle>, is_signer: Option<bool>) -> (r: Vec<
        AccountMeta,
    >) {
        let mut v: Vec<AccountMeta> = Vec::new();
        v.push(AccountMeta::for_handle(&bank[self.index], is_signer));
        v
    }
}

impl SingleAccount for AccountInfo {
    open spec fn index_spec(&self) -> int {
        self.index as int
    }

    proof fn single(&self, bank_len: int) {
    }

    fn account_index(&self) -> (r: usize) {
        self.index
    }
}

impl DecodeAccounts<()> for AccountInfo {
    open spec fn decode_result(
        ctx: AccountsContext,
        bank: Seq<AccountHandle>,
        start: int,
        arg: (),
    ) -> AnchorResult<int> {
        if start < bank.len() {
            Ok(1)
        } else {
            Err(AnchorError::InsufficientAccounts)
        }
    }

    open spec fn decoded(
        ctx: AccountsContext,
        bank: Seq<AccountHandle>,
        start: int,
        arg: (),
        v: Self,
    ) -> bool {
        v.index as int == start
    }

    open spec fn size_hint_spec() -> (int, Option<int>) {
        (1, Some(1))
    }

    fn try_accounts(
        ctx: &AccountsContext,
        bank: &Vec<AccountHandle>,
        cursor: &mut usize,
        arg: (),
    ) -> (r: AnchorResult<Self>) {
        if *cursor < bank.len() {
            let v = AccountInfo { index: *cursor };
            *cursor = *cursor + 1;
            Ok(v)
        } else {
            Err(AnchorError::InsufficientAccounts)
        }
    }

    fn size_hint() -> (r: (usize, Option<usize>)) {
        (1, Some(1))
    }
}

impl ValidateAccounts<()> for AccountInfo {
    open spec fn validate_result(
        &self,
        ctx: AccountsContext,
        bank: Seq<AccountHandle>,
        arg: (),
    ) -> AnchorResult<()> {
        Ok(())
    }

    open spec fn validate_post(
        &self,
        ctx: AccountsContext,
        bank: Seq<AccountHandle>,
        arg: (),
        new: Self,
        ok: bool,
    ) -> bool {
        new == *self
    }

    fn validate(&mut self, ctx: &AccountsContext, bank: &Vec<AccountHandle>, arg: ()) -> (r:
        AnchorResult<()>) {
        Ok(())
    }
}

impl CleanupAccounts<()> for AccountInfo {
    open spec fn cleanup_result(
        &self,
        ctx: AccountsContext,
        bank: Seq<AccountHandle>,
        arg: (),
    ) -> AnchorResult<()> {
        Ok(())
    }

    open spec fn cleaned(
        &self,
        ctx: AccountsContext,
        bank: Seq<AccountHandle>,
        arg: (),
        new_bank: Seq<AccountHandle>,
    ) -> bool {
        new_bank[self.index as int].data@ == bank[self.index as int].data@
    }

    proof fn cleanup_result_frame(
        &self,
        ctx: AccountsContext,
        arg: (),
        bank1: Seq<AccountHandle>,
        bank2: Seq<AccountHandle>,
    ) {
    }

    proof fn cleaned_frame(
        &self,
        ctx: AccountsContext,
        arg: (),
        bank1: Seq<AccountHandle>,
        new1: Seq<AccountHandle>,
        bank2: Seq<AccountHandle>,
        new2: Seq<AccountHandle>,
    ) {
        assert(self.indices()[0] == self.index as int);
        assert(self.indices().contains(self.index as int));
    }

    fn cleanup(&self, ctx: &AccountsContext, bank: &mut Vec<AccountHandle>, arg: ()) -> (r:
        AnchorResult<()>) {
        Ok(())
    }
}

} // verus!
