use vstd::prelude::*;

use crate::handle::{clone_bytes, KEY_LEN};
use crate::traits::AccountsContext;

verus! {

/// A program whose identity is known statically.
pub trait ProgramId {
    /// The program's public key.
    spec fn id_spec() -> Seq<u8>;

    /// Whether this program is the one currently executing.
    spec fn is_current_program() -> bool;

    proof fn id_len()
        ensures
            Self::id_spec().len() == KEY_LEN,
    ;

    fn id() -> (r: Vec<u8>)
        ensures
            r@ == Self::id_spec(),
    ;
}

/// A source of a program identity, either statically known or read from the
/// per-invocation context.
pub trait GetProgramId {
    /// The program's public key, given the invocation context.
    spec fn program_id_spec(ctx: AccountsContext) -> Seq<u8>;

    /// Whether the identity denotes the currently executing program.
    spec fn is_current() -> bool;

    proof fn program_id_len(ctx: AccountsContext)
        requires
            ctx.wf(),
        ensures
            Self::program_id_spec(ctx).len() == KEY_LEN,
    ;

    fn program_id(ctx: &AccountsContext) -> (r: Vec<u8>)
        ensures
            r@ == Self::program_id_spec(*ctx),
    ;
}

impl<P: ProgramId> GetProgramId for P {
    open spec fn program_id_spec(ctx: AccountsContext) -> Seq<u8> {
        P::id_spec()
    }

    open spec fn is_current() -> bool {
        P::is_current_program()
    }

    proof fn program_id_len(ctx: AccountsContext) {
        P::id_len();
    }

    fn program_id(ctx: &AccountsContext) -> (r: Vec<u8>) {
        P::id()
    }
}

/// The identity of the currently executing program, read from the context.
pub struct CurrentProgram;

impl GetProgramId for CurrentProgram {
    open spec fn program_id_spec(ctx: AccountsContext) -> Seq<u8> {
        ctx.current_program_id@
    }

    open spec fn is_current() -> bool {
        true
    }

    proof fn program_id_len(ctx: AccountsContext) {
    }

    fn program_id(ctx: &AccountsContext) -> (r: Vec<u8>) {
        clone_bytes(&ctx.current_program_id)
    }
}

} // verus!
