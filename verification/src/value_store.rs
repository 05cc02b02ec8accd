use vstd::prelude::*;

use crate::field_element::FieldElement;
use crate::places::Place;

verus! {

/// Handle to the deferred resolver's output: every resolved value, addressed
/// by raw location. The resolver itself (an external dependency-graph
/// evaluator) runs before this layer reads anything; its completion barrier is
/// modeled as the `pending` flag, cleared exactly once by
/// `wait_till_resolved`. No value may be read while the store is pending.
pub struct ValueStore {
    values: Vec<FieldElement>,
    pending: bool,
}

impl ValueStore {
    /// The resolved values, by raw location index.
    pub closed spec fn values(self) -> Seq<FieldElement> {
        self.values@
    }

    /// Whether the resolution barrier has been passed.
    pub closed spec fn is_resolved(self) -> bool {
        !self.pending
    }

    /// A store whose resolution is still in flight: reads must first pass the
    /// barrier.
    pub fn new_pending(values: Vec<FieldElement>) -> (r: ValueStore)
        ensures
            r.values() == values@,
            !r.is_resolved(),
    {
        ValueStore { values, pending: true }
    }

    /// A store whose resolution has already completed.
    pub fn new_resolved(values: Vec<FieldElement>) -> (r: ValueStore)
        ensures
            r.values() == values@,
            r.is_resolved(),
    {
        ValueStore { values, pending: false }
    }

    /// Blocks until every requested value is resolved. Idempotent: calling it
    /// again after resolution is a no-op. The values themselves are fixed by
    /// the resolver before the barrier opens, so they are unchanged here.
    pub fn wait_till_resolved(&mut self)
        ensures
            final(self).values() == old(self).values(),
            final(self).is_resolved(),
    {
        self.pending = false;
    }

    /// Read-side access to the whole resolved array, as the engine takes it
    /// for the duration of a materialization scope. Available only after the
    /// resolution barrier; the store is never mutated through it.
    pub fn read(&self) -> (r: &Vec<FieldElement>)
        requires
            self.is_resolved(),
        ensures
            r@ == self.values(),
    {
        &self.values
    }

    /// Unchecked point lookup. The caller must have passed the resolution
    /// barrier and must have filtered placeholders: dereferencing an
    /// unresolved or out-of-range location is a contract violation, never a
    /// runtime-checked error path.
    pub fn get_value_unchecked(&self, place: Place) -> (r: FieldElement)
        requires
            self.is_resolved(),
            place.raw < self.values().len(),
        ensures
            r == self.values()[place.raw as int],
    {
        let n = self.values.len();
        assert(place.raw < n);
        let idx = place.raw as usize;
        assert(idx == place.raw);
        self.values[idx]
    }
}

} // verus!
