use vstd::prelude::*;

verus! {

/// A tri-state capability flag attached to an account view for two
/// independent properties: whether the wrapped buffer may be written
/// (*Mutable*) and whether the account authorized the transaction
/// (*CanSign*).
///
/// `True` and `False` mean the property is statically known; `Unknown` means
/// no static knowledge is available, so every check must be performed
/// dynamically. Combining flags never silently keeps `Unknown`: two
/// `Unknown`s degrade to `False`, so no check is skipped merely because both
/// sides "might" hold.
#[derive(Clone, Copy, Debug, PartialEq, Eq, Structural)]
pub enum Flag {
    True,
    False,
    Unknown,
}

impl Flag {
    /// Logical OR of two capability flags: `True` dominates, `False` is the
    /// identity, and `Unknown` with `Unknown` degrades to `False`.
    pub open spec fn or_spec(self, rhs: Flag) -> Flag {
        match (self, rhs) {
            (Flag::True, _) => Flag::True,
            (_, Flag::True) => Flag::True,
            (Flag::Unknown, Flag::Unknown) => Flag::False,
            (Flag::False, other) => other,
            (other, Flag::False) => other,
        }
    }

    /// Logical AND of two capability flags: `Unknown` with anything degrades
    /// to `False`; otherwise the result is `True` exactly when both sides
    /// are `True`.
    pub open spec fn and_spec(self, rhs: Flag) -> Flag {
        match (self, rhs) {
            (Flag::Unknown, _) => Flag::False,
            (_, Flag::Unknown) => Flag::False,
            (Flag::True, Flag::True) => Flag::True,
            _ => Flag::False,
        }
    }

    /// Logical negation: known values flip, `Unknown` stays `Unknown`.
    pub open spec fn not_spec(self) -> Flag {
        match self {
            Flag::True => Flag::False,
            Flag::False => Flag::True,
            Flag::Unknown => Flag::Unknown,
        }
    }

    pub open spec fn is_true(self) -> bool {
        self == Flag::True
    }

    pub open spec fn is_false(self) -> bool {
        self == Flag::False
    }

    pub open spec fn is_unknown(self) -> bool {
        self == Flag::Unknown
    }

    pub fn or(self, rhs: Flag) -> (r: Flag)
        ensures
            r == self.or_spec(rhs),
    {
        match (self, rhs) {
            (Flag::True, _) => Flag::True,
            (_, Flag::True) => Flag::True,
            (Flag::Unknown, Flag::Unknown) => Flag::False,
            (Flag::False, other) => other,
            (other, Flag::False) => other,
        }
    }

    pub fn and(self, rhs: Flag) -> (r: Flag)
        ensures
            r == self.and_spec(rhs),
    {
        match (self, rhs) {
            (Flag::Unknown, _) => Flag::False,
            (_, Flag::Unknown) => Flag::False,
            (Flag::True, Flag::True) => Flag::True,
            _ => Flag::False,
        }
    }

    pub fn not(self) -> (r: Flag)
        ensures
            r == self.not_spec(),
    {
        match self {
            Flag::True => Flag::False,
            Flag::False => Flag::True,
            Flag::Unknown => Flag::Unknown,
        }
    }
}

/// Combining `True` with anything under OR yields `True`, on either side.
pub proof fn lemma_or_true_dominates(b: Flag)
    ensures
        Flag::True.or_spec(b) == Flag::True,
        b.or_spec(Flag::True) == Flag::True,
{
}

/// Combining `Unknown` with `Unknown` under OR yields `False`, never
/// `Unknown`.
pub proof fn lemma_or_unknown_degrades()
    ensures
        Flag::Unknown.or_spec(Flag::Unknown) == Flag::False,
{
}

/// `False` is the identity for OR, on either side.
pub proof fn lemma_or_false_identity(b: Flag)
    ensures
        Flag::False.or_spec(b) == b,
        b.or_spec(Flag::False) == b,
{
}

/// AND of `Unknown` with anything yields `False`, on either side.
pub proof fn lemma_and_unknown_degrades(b: Flag)
    ensures
        Flag::Unknown.and_spec(b) == Flag::False,
        b.and_spec(Flag::Unknown) == Flag::False,
{
}

/// Restricts which types may serve as type-level flags.
pub trait Sealed {
}

/// A type-level tri-state flag: a marker type that carries one `Flag` value
/// statically, so that a wrapper's capability can be fixed in its type.
pub trait MaybeBool: Sealed + Sized {
    /// The flag this marker denotes.
    spec fn flag_spec() -> Flag;

    /// The flag as a runtime value.
    fn flag() -> (r: Flag)
        ensures
            r == Self::flag_spec(),
    ;
}

/// A type-level flag whose boolean value is statically known (never
/// `Unknown`).
pub trait Bool: MaybeBool {
    /// The known boolean value.
    spec fn value_spec() -> bool;

    /// The marker's flag agrees with its known value.
    proof fn flag_known()
        ensures
            Self::flag_spec() == (if Self::value_spec() {
                Flag::True
            } else {
                Flag::False
            }),
    ;

    /// The known value at runtime.
    fn value() -> (r: bool)
        ensures
            r == Self::value_spec(),
    ;
}

/// The statically-known-true flag.
pub struct True;

/// The statically-known-false flag.
pub struct False;

/// The statically-unknown flag: every dependent check is dynamic.
pub struct Unknown;

impl Sealed for True {
}

impl MaybeBool for True {
    open spec fn flag_spec() -> Flag {
        Flag::True
    }

    fn flag() -> (r: Flag) {
        Flag::True
    }
}

impl Bool for True {
    open spec fn value_spec() -> bool {
        true
    }

    proof fn flag_known() {
    }

    fn value() -> (r: bool) {
        true
    }
}

impl Sealed for False {
}

impl MaybeBool for False {
    open spec fn flag_spec() -> Flag {
        Flag::False
    }

    fn flag() -> (r: Flag) {
        Flag::False
    }
}

impl Bool for False {
    open spec fn value_spec() -> bool {
        false
    }

    proof fn flag_known() {
    }

    fn value() -> (r: bool) {
        false
    }
}

impl Sealed for Unknown {
}

impl MaybeBool for Unknown {
    open spec fn flag_spec() -> Flag {
        Flag::Unknown
    }

    fn flag() -> (r: Flag) {
        Flag::Unknown
    }
}

} // verus!
