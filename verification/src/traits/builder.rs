use vstd::prelude::*;

verus! {

/// A builder for some finished output value.
pub trait Builder {
    type Output;
}

/// A builder that can be started from nothing.
pub trait BuilderStart: Builder + Sized {
    fn new() -> Self;
}

/// A builder state in which the field marked by `F` can be supplied,
/// moving to the next state. Required fields are enforced by the type
/// sequence: `finish` is reachable only from a state in which every
/// required field has been set, so omitting one is a construction-time
/// type error, not a runtime failure.
pub trait BuilderField<F>: Builder + Sized {
    type FieldType;

    type AfterSet: Builder<Output = Self::Output>;

    fn set_field(self, field: Self::FieldType) -> Self::AfterSet;
}

/// A builder state from which the output can be finished.
pub trait BuilderFinish: Builder + Sized {
    fn finish(self) -> Self::Output;
}

} // verus!
