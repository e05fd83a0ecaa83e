use vstd::prelude::*;

verus! {

/// Placeholder for a builder field that has not been supplied yet.
#[derive(Clone, Copy, Debug, PartialEq, Eq, Structural)]
pub struct EmptyField;

} // verus!
