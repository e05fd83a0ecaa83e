use vstd::prelude::*;

use crate::error::{AnchorError, AnchorResult};
use crate::handle::{clone_bytes, KEY_LEN};
use crate::traits::program::ProgramId;
use crate::traits::AccountsContext;

verus! {

/// What the ledger's address derivation returns for the given seed list,
/// bump byte and program id: the derived 32-byte address, or nothing when
/// the derivation rejects the input (a seed too long, too many seeds, or a
/// derived point that lies on the curve). The result depends on the
/// arguments alone.
pub uninterp spec fn pda_address(seeds: Seq<Seq<u8>>, bump: u8, program_id: Seq<u8>) -> Option<
    Seq<u8>,
>;

/// Relies on `pinocchio::address::Address::create_program_address`: a
/// single deterministic derivation of the program address for `seeds`
/// extended with `bump` under `program_id`, returning nothing exactly when
/// the derivation rejects the input.
#[verifier::external_body]
fn create_program_address_raw(seeds: &Vec<Vec<u8>>, bump: u8, program_id: &Vec<u8>) -> (r: Option<
    Vec<u8>,
>)
    requires
        program_id@.len() == KEY_LEN,
    ensures
        match r {
            Some(a) => {
                &&& pda_address(seeds@.map_values(|s: Vec<u8>| s@), bump, program_id@) == Some(a@)
                &&& a@.len() == KEY_LEN
            },
            None => pda_address(seeds@.map_values(|s: Vec<u8>| s@), bump, program_id@) is None,
        },
{
    let mut refs: Vec<&[u8]> = seeds.iter().map(|s| s.as_slice()).collect();
    let bump_bytes = [bump];
    refs.push(&bump_bytes);
    let pid = pinocchio::address::Address::try_from(program_id.as_slice()).unwrap();
    match pinocchio::address::Address::create_program_address(&refs, &pid) {
        Ok(a) => Some(a.to_bytes().to_vec()),
        Err(_) => None,
    }
}

/// The canonical derivation restricted to bumps `0..=limit`: the highest
/// bump in that range for which the derivation succeeds, together with its
/// address.
pub open spec fn canonical_pda_from(
    seeds: Seq<Seq<u8>>,
    program_id: Seq<u8>,
    limit: int,
) -> Option<(Seq<u8>, u8)>
    decreases limit + 1,
{
    if limit < 0 {
        None
    } else {
        match pda_address(seeds, limit as u8, program_id) {
            Some(a) => Some((a, limit as u8)),
            None => canonical_pda_from(seeds, program_id, limit - 1),
        }
    }
}

/// The canonical (address, bump) pair for a seed list under a program: the
/// brute-force search from the highest bump downward, as the ledger's
/// derivation function defines canonicity.
pub open spec fn canonical_pda(seeds: Seq<Seq<u8>>, program_id: Seq<u8>) -> Option<(Seq<u8>, u8)> {
    canonical_pda_from(seeds, program_id, 255)
}

/// Find the canonical program-derived address for a seed list: try bumps
/// from 255 downward and return the first (highest) that derives.
#[verifier::loop_isolation(false)]
pub fn find_program_address(seeds: &Vec<Vec<u8>>, program_id: &Vec<u8>) -> (r: Option<
    (Vec<u8>, u8),
>)
    requires
        program_id@.len() == KEY_LEN,
    ensures
        match r {
            Some(p) => {
                &&& canonical_pda(seeds@.map_values(|s: Vec<u8>| s@), program_id@) == Some(
                    (p.0@, p.1),
                )
                &&& p.0@.len() == KEY_LEN
            },
            None => canonical_pda(seeds@.map_values(|s: Vec<u8>| s@), program_id@) is None,
        },
{
    let ghost seed_views = seeds@.map_values(|s: Vec<u8>| s@);
    let mut bump: u8 = 255;
    loop
        invariant
            canonical_pda(seed_views, program_id@) == canonical_pda_from(
                seed_views,
                program_id@,
                bump as int,
            ),
        decreases bump,
    {
        match create_program_address_raw(seeds, bump, program_id) {
            Some(a) => {
                return Some((a, bump));
            },
            None => {
                if bump == 0 {
                    proof {
                        assert(canonical_pda_from(seed_views, program_id@, -1) is None);
                    }
                    return None;
                }
                bump = bump - 1;
            },
        }
    }
}

/// What canonicity means: the canonical pair derives, and no higher bump
/// does; when there is no canonical pair, no bump derives at all. The
/// tie-break (highest valid bump wins) comes from the ledger's derivation
/// rule and is not re-derived here.
pub proof fn lemma_canonical_pda_highest(seeds: Seq<Seq<u8>>, program_id: Seq<u8>)
    ensures
        match canonical_pda(seeds, program_id) {
            Some(p) => {
                &&& pda_address(seeds, p.1, program_id) == Some(p.0)
                &&& forall|b: u8| b > p.1 ==> pda_address(seeds, b, program_id) is None
            },
            None => forall|b: u8| pda_address(seeds, b, program_id) is None,
        },
{
    lemma_canonical_pda_from_highest(seeds, program_id, 255);
}

proof fn lemma_canonical_pda_from_highest(seeds: Seq<Seq<u8>>, program_id: Seq<u8>, limit: int)
    requires
        limit <= 255,
    ensures
        match canonical_pda_from(seeds, program_id, limit) {
            Some(p) => {
                &&& p.1 <= limit
                &&& pda_address(seeds, p.1, program_id) == Some(p.0)
                &&& forall|b: u8| p.1 < b <= limit ==> pda_address(seeds, b, program_id) is None
            },
            None => forall|b: u8| b <= limit ==> pda_address(seeds, b, program_id) is None,
        },
    decreases limit + 1,
{
    if limit >= 0 {
        if pda_address(seeds, limit as u8, program_id) is None {
            lemma_canonical_pda_from_highest(seeds, program_id, limit - 1);
        }
    }
}

/// A seed list for a program-derived address.
pub trait Seeds: Sized {
    /// The seed byte strings, in order.
    spec fn seeds_spec(&self) -> Seq<Seq<u8>>;

    /// The seed byte strings as owned values.
    fn seeds(&self) -> (r: Vec<Vec<u8>>)
        ensures
            r@.map_values(|s: Vec<u8>| s@) == self.seeds_spec(),
    ;
}

/// A view whose address is derived from a canonical seed type.
pub trait SeededAccount {
    type Seeds: Seeds;
}

/// The program under whose authority a seeded address is derived.
pub trait SeedProgram {
    /// The deriving program's public key, given the invocation context.
    spec fn seed_program_id_spec(ctx: AccountsContext) -> Seq<u8>;

    proof fn seed_program_id_len(ctx: AccountsContext)
        requires
            ctx.wf(),
        ensures
            Self::seed_program_id_spec(ctx).len() == KEY_LEN,
    ;

    fn seed_program_id(ctx: &AccountsContext) -> (r: Vec<u8>)
        ensures
            r@ == Self::seed_program_id_spec(*ctx),
    ;
}

impl<P: ProgramId> SeedProgram for P {
    open spec fn seed_program_id_spec(ctx: AccountsContext) -> Seq<u8> {
        P::id_spec()
    }

    proof fn seed_program_id_len(ctx: AccountsContext) {
        P::id_len();
    }

    fn seed_program_id(ctx: &AccountsContext) -> (r: Vec<u8>) {
        P::id()
    }
}

/// A plain list of seed byte strings.
pub struct SeedList(pub Vec<Vec<u8>>);

impl Seeds for SeedList {
    open spec fn seeds_spec(&self) -> Seq<Seq<u8>> {
        self.0@.map_values(|s: Vec<u8>| s@)
    }

    fn seeds(&self) -> (r: Vec<Vec<u8>>) {
        let mut out: Vec<Vec<u8>> = Vec::new();
        let mut i: usize = 0;
        while i < self.0.len()
            invariant
                i <= self.0@.len(),
                out@.len() == i,
                forall|j: int| 0 <= j < i ==> (#[trigger] out@[j])@ == self.0@[j]@,
            decreases self.0@.len() - i,
        {
            out.push(clone_bytes(&self.0[i]));
            i = i + 1;
        }
        proof {
            assert(out@.map_values(|s: Vec<u8>| s@) =~= self.seeds_spec());
        }
        out
    }
}

/// A seed list together with the bump byte that completes the derivation.
pub struct SeedsWithBump<S> {
    pub seeds: S,
    pub bump: u8,
}

impl<S: Seeds> SeedsWithBump<S> {
    /// Recompute the address from the explicit bump; fails with
    /// `InvalidSeeds` when the derivation rejects the input.
    pub fn create_program_address(&self, program_id: &Vec<u8>) -> (r: AnchorResult<Vec<u8>>)
        requires
            program_id@.len() == KEY_LEN,
        ensures
            match r {
                Ok(a) => {
                    &&& pda_address(self.seeds.seeds_spec(), self.bump, program_id@) == Some(a@)
                    &&& a@.len() == KEY_LEN
                },
                Err(e) => {
                    &&& pda_address(self.seeds.seeds_spec(), self.bump, program_id@) is None
                    &&& e == AnchorError::InvalidSeeds
                },
            },
    {
        let seed_vecs = self.seeds.seeds();
        match create_program_address_raw(&seed_vecs, self.bump, program_id) {
            Some(a) => Ok(a),
            None => Err(AnchorError::InvalidSeeds),
        }
    }
}

} // verus!
