use vstd::prelude::*;

use crate::field_element::FieldElement;
use crate::hints::{locs_maps_well_formed, variable_maps_locs, witness_maps_locs};
use crate::model::{
    bank_total, bank_view, flatten_bank, lemma_bank_total_update, lemma_sum_counters_update,
    materialized_columns, multiplicity_column, sum_counters,
};
use crate::value_store::ValueStore;
use crate::places::{Variable, Witness};

verus! {

/// The assembled constraint system as this layer sees it: the circuit shape
/// (column counts, trace length, lookup configuration), the placement data
/// produced by the external placement phase, the deferred resolver's value
/// store, the lookup multiplicity bank, and the recorded public-input
/// positions. The graph builder and resolution engine that fill these fields
/// are external; this layer only reads them (and passes the resolution
/// barrier) to produce dense columns.
pub struct CSReferenceAssembly {
    /// Configuration: witness values are computed and may be materialized.
    pub evaluate_witness: bool,
    /// Configuration: the placement data was retained after setup.
    pub keep_setup: bool,
    /// Number of rows of every materialized column.
    pub max_trace_len: usize,
    /// Total variable columns: general-purpose columns under copy-permutation
    /// plus the variables of specialized columns.
    pub num_variable_columns: usize,
    /// Total witness columns, counted the same way.
    pub num_witness_columns: usize,
    /// Whether the circuit uses lookup arguments at all.
    pub lookup_enabled: bool,
    /// Number of multiplicity columns; the current design supports exactly
    /// one when lookups are enabled.
    pub num_multiplicity_columns: usize,
    /// The deferred resolver's output, readable once resolved.
    pub variables_storage: ValueStore,
    /// Placement of the variable column family, column-major.
    pub copy_permutation_data: Vec<Vec<Variable>>,
    /// Placement of the witness column family, column-major.
    pub witness_placement_data: Vec<Vec<Witness>>,
    /// One counter per lookup-table row, per subtable. Synthesis increments
    /// these (concurrently, via atomics); this layer reads them only after
    /// synthesis has completed, when they are logically frozen, so they are
    /// modeled as plain integers.
    pub lookup_multiplicities: Vec<Vec<u32>>,
    /// (column, row) position of each public input in the variable columns.
    pub public_inputs: Vec<(usize, usize)>,
    /// Number of value-store slots handed out so far; every non-placeholder
    /// placement location lies below it.
    pub next_available_place_idx: usize,
}

impl CSReferenceAssembly {
    /// Total number of lookup-table rows across all subtables.
    pub open spec fn total_multiplicities(self) -> nat {
        flatten_bank(bank_view(self.lookup_multiplicities@)).len()
    }

    /// Shape invariant of a fixed circuit: placement maps match the declared
    /// column counts and trace length, every live location is an allocated
    /// store slot, the lookup rows fit in one column, and the recorded
    /// public-input positions point into the variable columns.
    pub open spec fn wf(self) -> bool {
        &&& locs_maps_well_formed(
            variable_maps_locs(self.copy_permutation_data@),
            self.num_variable_columns as nat,
            self.max_trace_len as nat,
            self.next_available_place_idx as nat,
        )
        &&& locs_maps_well_formed(
            witness_maps_locs(self.witness_placement_data@),
            self.num_witness_columns as nat,
            self.max_trace_len as nat,
            self.next_available_place_idx as nat,
        )
        &&& self.next_available_place_idx <= self.variables_storage.values().len()
        &&& (self.lookup_enabled ==> self.num_multiplicity_columns == 1)
        &&& (!self.lookup_enabled ==> self.num_multiplicity_columns == 0)
        &&& self.total_multiplicities() <= self.max_trace_len
        &&& forall|k: int|
            0 <= k < self.public_inputs@.len() ==> (#[trigger] self.public_inputs@[k]).0
                < self.num_variable_columns && self.public_inputs@[k].1 < self.max_trace_len
    }

    /// The variable columns that materialization must produce: the resolved
    /// value at each placed location, zero at placeholders.
    pub open spec fn variable_columns_model(self) -> Seq<Seq<FieldElement>> {
        materialized_columns(
            self.variables_storage.values(),
            variable_maps_locs(self.copy_permutation_data@),
        )
    }

    /// The witness columns that materialization must produce.
    pub open spec fn witness_columns_model(self) -> Seq<Seq<FieldElement>> {
        materialized_columns(
            self.variables_storage.values(),
            witness_maps_locs(self.witness_placement_data@),
        )
    }

    /// The multiplicity bank flattened to one counter sequence, subtables in
    /// order.
    pub open spec fn multiplicity_counters(self) -> Seq<u32> {
        flatten_bank(bank_view(self.lookup_multiplicities@))
    }

    /// The multiplicity columns that materialization must produce: one column
    /// of directly embedded counters when lookups are enabled, none otherwise.
    pub open spec fn multiplicity_columns_model(self) -> Seq<Seq<FieldElement>> {
        if self.lookup_enabled {
            seq![multiplicity_column(self.multiplicity_counters(), self.max_trace_len as nat)]
        } else {
            Seq::empty()
        }
    }

    /// Every field of the circuit shape, the placements, the bank, and the
    /// stored values is the same in `post` as in `pre`; only the value
    /// store's resolution state may differ.
    pub open spec fn shape_unchanged(pre: CSReferenceAssembly, post: CSReferenceAssembly) -> bool {
        &&& post.evaluate_witness == pre.evaluate_witness
        &&& post.keep_setup == pre.keep_setup
        &&& post.max_trace_len == pre.max_trace_len
        &&& post.num_variable_columns == pre.num_variable_columns
        &&& post.num_witness_columns == pre.num_witness_columns
        &&& post.lookup_enabled == pre.lookup_enabled
        &&& post.num_multiplicity_columns == pre.num_multiplicity_columns
        &&& post.copy_permutation_data@ == pre.copy_permutation_data@
        &&& post.witness_placement_data@ == pre.witness_placement_data@
        &&& post.lookup_multiplicities@ == pre.lookup_multiplicities@
        &&& post.public_inputs@ == pre.public_inputs@
        &&& post.next_available_place_idx == pre.next_available_place_idx
        &&& post.variables_storage.values() == pre.variables_storage.values()
    }

    /// Blocks until the deferred resolver has produced every requested value.
    /// Requires the system to be configured to evaluate witness values at
    /// all; calling it otherwise is a fatal configuration mismatch in the
    /// surrounding pipeline.
    pub fn wait_for_witness(&mut self)
        requires
            old(self).evaluate_witness,
        ensures
            Self::shape_unchanged(*old(self), *final(self)),
            final(self).variables_storage.is_resolved(),
    {
        self.variables_storage.wait_till_resolved();
    }

    /// One lookup of row `index` of subtable `subtable` during constraint
    /// synthesis: its counter grows by one and the bank's total with it.
    /// Synthesis performs this concurrently through atomic increments; the
    /// totals are the same in every interleaving, so it is modeled
    /// sequentially.
    pub fn increment_multiplicity(&mut self, subtable: usize, index: usize)
        requires
            subtable < old(self).lookup_multiplicities@.len(),
            index < old(self).lookup_multiplicities@[subtable as int]@.len(),
            old(self).lookup_multiplicities@[subtable as int]@[index as int] < u32::MAX,
        ensures
            final(self).lookup_multiplicities@.len() == old(self).lookup_multiplicities@.len(),
            bank_view(final(self).lookup_multiplicities@) == bank_view(
                old(self).lookup_multiplicities@,
            ).update(
                subtable as int,
                old(self).lookup_multiplicities@[subtable as int]@.update(
                    index as int,
                    (old(self).lookup_multiplicities@[subtable as int]@[index as int] + 1) as u32,
                ),
            ),
            bank_total(bank_view(final(self).lookup_multiplicities@)) == bank_total(
                bank_view(old(self).lookup_multiplicities@),
            ) + 1,
            final(self).evaluate_witness == old(self).evaluate_witness,
            final(self).keep_setup == old(self).keep_setup,
            final(self).max_trace_len == old(self).max_trace_len,
            final(self).num_variable_columns == old(self).num_variable_columns,
            final(self).num_witness_columns == old(self).num_witness_columns,
            final(self).lookup_enabled == old(self).lookup_enabled,
            final(self).num_multiplicity_columns == old(self).num_multiplicity_columns,
            final(self).copy_permutation_data@ == old(self).copy_permutation_data@,
            final(self).witness_placement_data@ == old(self).witness_placement_data@,
            final(self).public_inputs@ == old(self).public_inputs@,
            final(self).next_available_place_idx == old(self).next_available_place_idx,
            final(self).variables_storage.values() == old(self).variables_storage.values(),
            final(self).variables_storage.is_resolved() == old(
                self,
            ).variables_storage.is_resolved(),
    {
        let ghost pre_bank = bank_view(self.lookup_multiplicities@);
        let ghost pre_row = self.lookup_multiplicities@[subtable as int]@;
        let row = &self.lookup_multiplicities[subtable];
        let n = row.len();
        let mut updated: Vec<u32> = Vec::new();
        let mut i: usize = 0;
        while i < n
            invariant
                i <= n,
                n == pre_row.len(),
                index < n,
                pre_row[index as int] < u32::MAX,
                self.lookup_multiplicities@[subtable as int]@ == pre_row,
                subtable < self.lookup_multiplicities@.len(),
                updated@ == pre_row.update(index as int, (pre_row[index as int] + 1) as u32).take(
                    i as int,
                ),
            decreases n - i,
        {
            let ghost target = pre_row.update(index as int, (pre_row[index as int] + 1) as u32);
            if i == index {
                let v = self.lookup_multiplicities[subtable][index];
                updated.push(v + 1);
            } else {
                let v = self.lookup_multiplicities[subtable][i];
                updated.push(v);
            }
            proof {
                assert(updated@ =~= target.take((i + 1) as int));
            }
            i = i + 1;
        }
        let ghost new_row = pre_row.update(index as int, (pre_row[index as int] + 1) as u32);
        proof {
            assert(updated@ =~= new_row);
        }
        self.lookup_multiplicities.set(subtable, updated);
        proof {
            assert(bank_view(self.lookup_multiplicities@) =~= pre_bank.update(
                subtable as int,
                new_row,
            ));
            lemma_sum_counters_update(
                pre_row,
                index as int,
                (pre_row[index as int] + 1) as u32,
            );
            lemma_bank_total_update(pre_bank, subtable as int, new_row);
        }
    }
}

} // verus!
