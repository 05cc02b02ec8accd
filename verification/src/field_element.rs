use vstd::prelude::*;

verus! {

/// Order of the 64-bit prime field used by the proving backend.
pub const FIELD_ORDER: u64 = 0xFFFF_FFFF_0000_0001;

/// One element of the proving backend's 64-bit prime field, carried here as an
/// opaque canonical representative. The materialization layer never performs
/// field arithmetic: it only moves values, compares them, and embeds small
/// unsigned counters directly (without modular reduction, which is sound
/// because every counter is far below the field's characteristic).
#[derive(Clone, Copy, PartialEq, Eq, Structural, Debug, Hash)]
pub struct FieldElement {
    pub repr: u64,
}

impl FieldElement {
    /// The additive identity, which materialization writes into every
    /// placeholder (unassigned) cell.
    pub open spec fn spec_zero() -> FieldElement {
        FieldElement { repr: 0 }
    }

    pub fn zero() -> (r: FieldElement)
        ensures
            r == FieldElement::spec_zero(),
    {
        FieldElement { repr: 0 }
    }

    /// Direct embedding of an integer below the field order; no reduction
    /// takes place.
    pub fn from_u64_unchecked(value: u64) -> (r: FieldElement)
        requires
            value < FIELD_ORDER,
        ensures
            r.repr == value,
    {
        FieldElement { repr: value }
    }

    /// Direct embedding of a multiplicity counter; every `u32` is below the
    /// field order, so the embedding never reduces.
    pub fn from_counter(counter: u32) -> (r: FieldElement)
        ensures
            r.repr == counter as u64,
    {
        FieldElement { repr: counter as u64 }
    }
}

} // verus!
