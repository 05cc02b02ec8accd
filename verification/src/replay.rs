use vstd::prelude::*;

use crate::assembly::CSReferenceAssembly;
use crate::column::{columns_view, Column};
use crate::engine::{
    embed_counters_column, flatten_multiplicities, materialize_variable_family,
    materialize_witness_family,
};
use crate::field_element::FieldElement;
use crate::hints::{variable_maps_locs, witness_maps_locs, DenseVariablesCopyHint, DenseWitnessCopyHint};
use crate::model::{materialized_column, materialized_columns, multiplicity_column};
use crate::places::Place;
use crate::witness_set::WitnessSet;
use crate::witness_vec::WitnessVec;

verus! {

/// The cell of a column-family model addressed by a recorded (column, row)
/// public-input position.
pub open spec fn model_cell(model: Seq<Seq<FieldElement>>, loc: (usize, usize)) -> FieldElement {
    model[loc.0 as int][loc.1 as int]
}

/// A recorded (column, row) position points into the given columns.
pub open spec fn input_in_bounds(loc: (usize, usize), cols: Seq<Column>) -> bool {
    loc.0 < cols.len() && loc.1 < cols[loc.0 as int].storage@.len()
}

impl CSReferenceAssembly {
    /// Flattens one resolved proving attempt into a compact witness vector:
    /// waits for full resolution, then copies the public-input positions
    /// verbatim, every resolved value below the next available location
    /// index, and — when lookups are in use — the multiplicity bank in its
    /// flattened order. The bank is read after synthesis has completed, so a
    /// plain bulk read suffices.
    pub fn materialize_witness_vec(&mut self) -> (r: WitnessVec)
        requires
            old(self).wf(),
            old(self).evaluate_witness,
            old(self).next_available_place_idx > 0,
        ensures
            Self::shape_unchanged(*old(self), *final(self)),
            final(self).variables_storage.is_resolved(),
            r.public_inputs_locations@ == old(self).public_inputs@,
            r.all_values@ == old(self).variables_storage.values().take(
                old(self).next_available_place_idx as int,
            ),
            old(self).lookup_enabled ==> r.multiplicities@ == old(self).multiplicity_counters(),
            !old(self).lookup_enabled ==> r.multiplicities@ == Seq::<u32>::empty(),
    {
        self.variables_storage.wait_till_resolved();

        let num_inputs = self.public_inputs.len();
        let mut public_inputs_locations: Vec<(usize, usize)> = Vec::new();
        let mut k: usize = 0;
        while k < num_inputs
            invariant
                k <= num_inputs,
                num_inputs == self.public_inputs@.len(),
                public_inputs_locations@ == self.public_inputs@.take(k as int),
            decreases num_inputs - k,
        {
            public_inputs_locations.push(self.public_inputs[k]);
            proof {
                assert(public_inputs_locations@ =~= self.public_inputs@.take((k + 1) as int));
            }
            k = k + 1;
        }
        proof {
            assert(self.public_inputs@.take(num_inputs as int) =~= self.public_inputs@);
        }

        let max_idx = self.next_available_place_idx;
        let mut all_values: Vec<FieldElement> = Vec::new();
        let mut idx: usize = 0;
        while idx < max_idx
            invariant
                idx <= max_idx,
                self.variables_storage.is_resolved(),
                max_idx <= self.variables_storage.values().len(),
                all_values@ == self.variables_storage.values().take(idx as int),
            decreases max_idx - idx,
        {
            let place = Place::new(idx as u64);
            let value = self.variables_storage.get_value_unchecked(place);
            all_values.push(value);
            proof {
                assert(all_values@ =~= self.variables_storage.values().take((idx + 1) as int));
            }
            idx = idx + 1;
        }

        let multiplicities: Vec<u32> = if !self.lookup_enabled {
            Vec::new()
        } else {
            flatten_multiplicities(&self.lookup_multiplicities)
        };

        WitnessVec { public_inputs_locations, all_values, multiplicities }
    }

    /// Replay: rebuilds a full witness set from a compact witness vector and
    /// the two placement hints, without touching the original value store.
    /// The hints must match this circuit shape (a length disagreement is a
    /// fatal shape mismatch for a fixed circuit) and every live hint
    /// location must index into the vector's values — a mismatched
    /// hint/vector pair must fail fast rather than silently truncate, so it
    /// is a contract violation here. Public inputs are read back from the
    /// already-materialized variable columns, which is why the variable
    /// family is built first.
    pub fn witness_set_from_witness_vec(
        &self,
        witness_vec: &WitnessVec,
        vars_hint: &DenseVariablesCopyHint,
        wits_hint: &DenseWitnessCopyHint,
    ) -> (r: WitnessSet)
        requires
            vars_hint.well_formed(
                self.num_variable_columns as nat,
                self.max_trace_len as nat,
                witness_vec.all_values@.len(),
            ),
            wits_hint.well_formed(
                self.num_witness_columns as nat,
                self.max_trace_len as nat,
                witness_vec.all_values@.len(),
            ),
            self.lookup_enabled ==> self.num_multiplicity_columns == 1,
            !self.lookup_enabled ==> self.num_multiplicity_columns == 0,
            witness_vec.multiplicities@.len() <= self.max_trace_len,
            forall|k: int|
                0 <= k < witness_vec.public_inputs_locations@.len() ==> (
                #[trigger] witness_vec.public_inputs_locations@[k]).0 < self.num_variable_columns
                    && witness_vec.public_inputs_locations@[k].1 < self.max_trace_len,
        ensures
            r.variables@.len() == self.num_variable_columns,
            columns_view(r.variables@) == materialized_columns(
                witness_vec.all_values@,
                variable_maps_locs(vars_hint.maps@),
            ),
            r.witness@.len() == self.num_witness_columns,
            columns_view(r.witness@) == materialized_columns(
                witness_vec.all_values@,
                witness_maps_locs(wits_hint.maps@),
            ),
            r.multiplicities@.len() == self.num_multiplicity_columns,
            self.lookup_enabled ==> columns_view(r.multiplicities@) == seq![
                multiplicity_column(witness_vec.multiplicities@, self.max_trace_len as nat),
            ],
            r.public_inputs_values@.len() == witness_vec.public_inputs_locations@.len(),
            r.public_inputs_with_locations@.len() == witness_vec.public_inputs_locations@.len(),
            forall|k: int|
                0 <= k < witness_vec.public_inputs_locations@.len()
                    ==> #[trigger] r.public_inputs_values@[k] == model_cell(
                    materialized_columns(
                        witness_vec.all_values@,
                        variable_maps_locs(vars_hint.maps@),
                    ),
                    witness_vec.public_inputs_locations@[k],
                ),
            forall|k: int|
                0 <= k < witness_vec.public_inputs_locations@.len()
                    ==> #[trigger] r.public_inputs_with_locations@[k] == (
                witness_vec.public_inputs_locations@[k].0,
                witness_vec.public_inputs_locations@[k].1,
                r.public_inputs_values@[k],
                ),
    {
        let variables_columns = materialize_variable_family(
            &witness_vec.all_values,
            &vars_hint.maps,
            self.max_trace_len,
        );

        let witness_columns = materialize_witness_family(
            &witness_vec.all_values,
            &wits_hint.maps,
            self.max_trace_len,
        );

        let mut multiplicities_columns: Vec<Column> = Vec::new();
        if self.lookup_enabled {
            let col = embed_counters_column(&witness_vec.multiplicities, self.max_trace_len);
            multiplicities_columns.push(col);
            proof {
                assert(columns_view(multiplicities_columns@) =~= seq![
                    multiplicity_column(witness_vec.multiplicities@, self.max_trace_len as nat),
                ]);
            }
        }

        let ghost variables_model = materialized_columns(
            witness_vec.all_values@,
            variable_maps_locs(vars_hint.maps@),
        );
        proof {
            let locs = witness_vec.public_inputs_locations@;
            let mlocs = variable_maps_locs(vars_hint.maps@);
            assert forall|i: int| 0 <= i < locs.len() implies input_in_bounds(
                #[trigger] locs[i],
                variables_columns@,
            ) by {
                let c = locs[i].0 as int;
                assert(columns_view(variables_columns@)[c] == variables_columns@[c].storage@);
                assert(variables_model[c] == materialized_column(
                    witness_vec.all_values@,
                    mlocs[c],
                ));
                assert(mlocs[c].len() == self.max_trace_len);
            }
        }
        let num_inputs = witness_vec.public_inputs_locations.len();
        let mut public_inputs_only_values: Vec<FieldElement> = Vec::new();
        let mut public_inputs_with_values: Vec<(usize, usize, FieldElement)> = Vec::new();
        let mut k: usize = 0;
        while k < num_inputs
            invariant
                k <= num_inputs,
                num_inputs == witness_vec.public_inputs_locations@.len(),
                variables_model == materialized_columns(
                    witness_vec.all_values@,
                    variable_maps_locs(vars_hint.maps@),
                ),
                variables_columns@.len() == vars_hint.maps@.len(),
                columns_view(variables_columns@) == variables_model,
                forall|i: int|
                    0 <= i < num_inputs ==> input_in_bounds(
                        #[trigger] witness_vec.public_inputs_locations@[i],
                        variables_columns@,
                    ),
                public_inputs_only_values@.len() == k,
                public_inputs_with_values@.len() == k,
                forall|i: int|
                    0 <= i < k ==> #[trigger] public_inputs_only_values@[i] == model_cell(
                        variables_model,
                        witness_vec.public_inputs_locations@[i],
                    ),
                forall|i: int|
                    0 <= i < k ==> #[trigger] public_inputs_with_values@[i] == (
                    witness_vec.public_inputs_locations@[i].0,
                    witness_vec.public_inputs_locations@[i].1,
                    public_inputs_only_values@[i],
                    ),
            decreases num_inputs - k,
        {
            let (column, row) = witness_vec.public_inputs_locations[k];
            proof {
                let c = column as int;
                assert(columns_view(variables_columns@)[c] == variables_columns@[c].storage@);
            }
            let value = variables_columns[column].storage[row];
            public_inputs_with_values.push((column, row, value));
            public_inputs_only_values.push(value);
            k = k + 1;
        }

        WitnessSet {
            public_inputs_values: public_inputs_only_values,
            public_inputs_with_locations: public_inputs_with_values,
            variables: variables_columns,
            witness: witness_columns,
            multiplicities: multiplicities_columns,
        }
    }
}

} // verus!
