use vstd::prelude::*;

use crate::places::{Variable, Witness, PLACEHOLDER_RAW};

verus! {

/// Placement map for the variable column family: for each column, one
/// location-or-placeholder per row. Built once by the (external) placement
/// phase from the constraint-system layout, immutable and shared read-only
/// across every materialization of the same circuit shape.
pub struct DenseVariablesCopyHint {
    pub maps: Vec<Vec<Variable>>,
}

/// Placement map for the witness column family; see
/// [`DenseVariablesCopyHint`].
pub struct DenseWitnessCopyHint {
    pub maps: Vec<Vec<Witness>>,
}

/// The raw locations of one variable placement column.
pub open spec fn variable_column_locs(col: Seq<Variable>) -> Seq<u64> {
    Seq::new(col.len(), |i: int| col[i].raw)
}

/// The raw locations of one witness placement column.
pub open spec fn witness_column_locs(col: Seq<Witness>) -> Seq<u64> {
    Seq::new(col.len(), |i: int| col[i].raw)
}

/// The raw locations of a whole variable placement map, column-major.
pub open spec fn variable_maps_locs(maps: Seq<Vec<Variable>>) -> Seq<Seq<u64>> {
    Seq::new(maps.len(), |j: int| variable_column_locs(maps[j]@))
}

/// The raw locations of a whole witness placement map, column-major.
pub open spec fn witness_maps_locs(maps: Seq<Vec<Witness>>) -> Seq<Seq<u64>> {
    Seq::new(maps.len(), |j: int| witness_column_locs(maps[j]@))
}

/// A placement map is shaped for a circuit with `num_columns` columns of
/// `trace_len` rows, with every non-placeholder location below `bound` (the
/// number of allocated value slots).
pub open spec fn locs_maps_well_formed(
    maps: Seq<Seq<u64>>,
    num_columns: nat,
    trace_len: nat,
    bound: nat,
) -> bool {
    &&& maps.len() == num_columns
    &&& forall|j: int| 0 <= j < maps.len() ==> (#[trigger] maps[j]).len() == trace_len
    &&& forall|j: int, i: int|
        0 <= j < maps.len() && 0 <= i < maps[j].len() ==> #[trigger] maps[j][i] == PLACEHOLDER_RAW
            || maps[j][i] < bound
}

impl DenseVariablesCopyHint {
    pub open spec fn well_formed(self, num_columns: nat, trace_len: nat, bound: nat) -> bool {
        locs_maps_well_formed(variable_maps_locs(self.maps@), num_columns, trace_len, bound)
    }
}

impl DenseWitnessCopyHint {
    pub open spec fn well_formed(self, num_columns: nat, trace_len: nat, bound: nat) -> bool {
        locs_maps_well_formed(witness_maps_locs(self.maps@), num_columns, trace_len, bound)
    }
}

} // verus!
