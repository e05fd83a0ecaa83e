use vstd::prelude::*;

use crate::handle::KEY_LEN;
use crate::traits::program::ProgramId;

verus! {

/// The ledger's system program: the all-zero key, never the currently
/// executing program.
pub struct System;

impl ProgramId for System {
    open spec fn id_spec() -> Seq<u8> {
        Seq::new(KEY_LEN as nat, |i: int| 0u8)
    }

    open spec fn is_current_program() -> bool {
        false
    }

    proof fn id_len() {
    }

    fn id() -> (r: Vec<u8>) {
        let mut v: Vec<u8> = Vec::new();
        let mut i: usize = 0;
        while i < KEY_LEN
            invariant
                i <= KEY_LEN,
                v@ =~= Seq::new(i as nat, |j: int| 0u8),
            decreases KEY_LEN - i,
        {
            v.push(0u8);
            i = i + 1;
        }
        proof {
            assert(v@ =~= Self::id_spec());
        }
        v
    }
}

} // verus!
