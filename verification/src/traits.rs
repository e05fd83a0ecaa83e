use vstd::prelude::*;

pub mod account;
pub mod builder;
pub mod constraint;
pub mod program;
pub mod account_data;
pub mod seeds;


use crate::handle::KEY_LEN;

verus! {

/// Per-invocation context: the identity of the currently executing program.
pub struct AccountsContext {
    pub current_program_id: Vec<u8>,
}

impl AccountsContext {
    pub open spec fn wf(self) -> bool {
        self.current_program_id@.len() == KEY_LEN
    }

    pub fn new(current_program_id: Vec<u8>) -> (r: AccountsContext)
        requires
            current_program_id@.len() == KEY_LEN,
        ensures
            r.wf(),
            r.current_program_id@ == current_program_id@,
    {
        AccountsContext { current_program_id }
    }
}

} // verus!
