use vstd::prelude::*;

verus! {

/// Sentinel raw value marking a cell with no location assigned. A placeholder
/// must never be dereferenced into the value store; materialization leaves the
/// corresponding cell at the additive identity.
pub const PLACEHOLDER_RAW: u64 = u64::MAX;

/// A location in the resolved-value store, viewed as a circuit variable.
/// Variables and witnesses are two typed views over the same integer location
/// space; the (external) placement phase keeps their live locations disjoint.
#[derive(Clone, Copy, PartialEq, Eq, Structural, Debug, Hash)]
pub struct Variable {
    pub raw: u64,
}

/// A location in the resolved-value store, viewed as a prover-only witness.
#[derive(Clone, Copy, PartialEq, Eq, Structural, Debug, Hash)]
pub struct Witness {
    pub raw: u64,
}

/// An untyped location key into the resolved-value store, obtained from a
/// non-placeholder variable or witness view. The conversions to and from the
/// typed views are total bijections on the non-placeholder range.
#[derive(Clone, Copy, PartialEq, Eq, Structural, Debug, Hash)]
pub struct Place {
    pub raw: u64,
}

impl Variable {
    pub open spec fn spec_is_placeholder(self) -> bool {
        self.raw == PLACEHOLDER_RAW
    }

    pub fn placeholder() -> (r: Variable)
        ensures
            r.spec_is_placeholder(),
    {
        Variable { raw: PLACEHOLDER_RAW }
    }

    pub fn is_placeholder(&self) -> (r: bool)
        ensures
            r == self.spec_is_placeholder(),
    {
        self.raw == PLACEHOLDER_RAW
    }

    pub fn from_variable_index(index: u64) -> (r: Variable)
        requires
            index < PLACEHOLDER_RAW,
        ensures
            r.raw == index,
            !r.spec_is_placeholder(),
    {
        Variable { raw: index }
    }

    pub fn as_variable_index(&self) -> (r: u64)
        ensures
            r == self.raw,
    {
        self.raw
    }
}

impl Witness {
    pub open spec fn spec_is_placeholder(self) -> bool {
        self.raw == PLACEHOLDER_RAW
    }

    pub fn placeholder() -> (r: Witness)
        ensures
            r.spec_is_placeholder(),
    {
        Witness { raw: PLACEHOLDER_RAW }
    }

    pub fn is_placeholder(&self) -> (r: bool)
        ensures
            r == self.spec_is_placeholder(),
    {
        self.raw == PLACEHOLDER_RAW
    }

    pub fn from_witness_index(index: u64) -> (r: Witness)
        requires
            index < PLACEHOLDER_RAW,
        ensures
            r.raw == index,
            !r.spec_is_placeholder(),
    {
        Witness { raw: index }
    }

    pub fn as_witness_index(&self) -> (r: u64)
        ensures
            r == self.raw,
    {
        self.raw
    }
}

impl Place {
    pub fn new(raw: u64) -> (r: Place)
        requires
            raw != PLACEHOLDER_RAW,
        ensures
            r.raw == raw,
    {
        Place { raw }
    }

    pub fn from_variable(var: Variable) -> (r: Place)
        requires
            !var.spec_is_placeholder(),
        ensures
            r.raw == var.raw,
    {
        Place { raw: var.raw }
    }

    pub fn from_witness(wit: Witness) -> (r: Place)
        requires
            !wit.spec_is_placeholder(),
        ensures
            r.raw == wit.raw,
    {
        Place { raw: wit.raw }
    }

    pub fn raw_index(&self) -> (r: u64)
        ensures
            r == self.raw,
    {
        self.raw
    }
}

} // verus!
