use vstd::prelude::*;

use crate::assembly::CSReferenceAssembly;
use crate::column::{columns_view, zero_column, Column};
use crate::field_element::FieldElement;
use crate::hints::{
    locs_maps_well_formed, variable_column_locs, variable_maps_locs, witness_column_locs,
    witness_maps_locs, DenseVariablesCopyHint, DenseWitnessCopyHint,
};
use crate::model::{
    bank_view, cell_value, flatten_bank, lemma_flatten_bank_take_succ, materialized_column,
    materialized_columns, multiplicity_column,
};

verus! {

/// Writes one variable placement column into a zeroed column: each
/// non-placeholder row gets the value at its location, placeholder rows keep
/// the additive identity.
fn fill_variable_column(
    values: &Vec<FieldElement>,
    locs: &Vec<crate::places::Variable>,
    col: Column,
) -> (r: Column)
    requires
        col.storage@ == zero_column(locs@.len()),
        forall|i: int|
            0 <= i < locs@.len() ==> (#[trigger] locs@[i]).spec_is_placeholder() || locs@[i].raw
                < values@.len(),
    ensures
        r.storage@ == materialized_column(values@, variable_column_locs(locs@)),
{
    let mut out = col;
    let n = locs.len();
    let mut i: usize = 0;
    while i < n
        invariant
            i <= n,
            n == locs@.len(),
            out.storage@.len() == n,
            forall|k: int|
                0 <= k < n ==> (#[trigger] locs@[k]).spec_is_placeholder() || locs@[k].raw
                    < values@.len(),
            forall|k: int|
                0 <= k < i ==> #[trigger] out.storage@[k] == cell_value(values@, locs@[k].raw),
            forall|k: int| i <= k < n ==> #[trigger] out.storage@[k] == FieldElement::spec_zero(),
        decreases n - i,
    {
        let loc = locs[i];
        if !loc.is_placeholder() {
            let raw = loc.as_variable_index();
            let m = values.len();
            assert(raw < m);
            let value = values[raw as usize];
            out.storage.set(i, value);
            proof {
                assert(out.storage@[i as int] == cell_value(values@, locs@[i as int].raw));
            }
        } else {
            proof {
                assert(cell_value(values@, locs@[i as int].raw) == FieldElement::spec_zero());
            }
        }
        i = i + 1;
    }
    proof {
        assert(out.storage@ =~= materialized_column(values@, variable_column_locs(locs@)));
    }
    out
}

/// Witness-family analogue of [`fill_variable_column`].
fn fill_witness_column(
    values: &Vec<FieldElement>,
    locs: &Vec<crate::places::Witness>,
    col: Column,
) -> (r: Column)
    requires
        col.storage@ == zero_column(locs@.len()),
        forall|i: int|
            0 <= i < locs@.len() ==> (#[trigger] locs@[i]).spec_is_placeholder() || locs@[i].raw
                < values@.len(),
    ensures
        r.storage@ == materialized_column(values@, witness_column_locs(locs@)),
{
    let mut out = col;
    let n = locs.len();
    let mut i: usize = 0;
    while i < n
        invariant
            i <= n,
            n == locs@.len(),
            out.storage@.len() == n,
            forall|k: int|
                0 <= k < n ==> (#[trigger] locs@[k]).spec_is_placeholder() || locs@[k].raw
                    < values@.len(),
            forall|k: int|
                0 <= k < i ==> #[trigger] out.storage@[k] == cell_value(values@, locs@[k].raw),
            forall|k: int| i <= k < n ==> #[trigger] out.storage@[k] == FieldElement::spec_zero(),
        decreases n - i,
    {
        let loc = locs[i];
        if !loc.is_placeholder() {
            let raw = loc.as_witness_index();
            let m = values.len();
            assert(raw < m);
            let value = values[raw as usize];
            out.storage.set(i, value);
            proof {
                assert(out.storage@[i as int] == cell_value(values@, locs@[i as int].raw));
            }
        } else {
            proof {
                assert(cell_value(values@, locs@[i as int].raw) == FieldElement::spec_zero());
            }
        }
        i = i + 1;
    }
    proof {
        assert(out.storage@ =~= materialized_column(values@, witness_column_locs(locs@)));
    }
    out
}

/// Materializes the whole variable column family from a resolved value array:
/// one zeroed template column is stamped out per placement column and filled.
/// Column writes are positionally determined, so the result is the same
/// whatever order a thread pool would process the columns in.
pub(crate) fn materialize_variable_family(
    values: &Vec<FieldElement>,
    maps: &Vec<Vec<crate::places::Variable>>,
    trace_len: usize,
) -> (r: Vec<Column>)
    requires
        locs_maps_well_formed(
            variable_maps_locs(maps@),
            maps@.len(),
            trace_len as nat,
            values@.len(),
        ),
    ensures
        r@.len() == maps@.len(),
        columns_view(r@) == materialized_columns(values@, variable_maps_locs(maps@)),
{
    let n = maps.len();
    let template = Column::zeroed(trace_len);
    let mut result: Vec<Column> = Vec::new();
    let mut j: usize = 0;
    while j < n
        invariant
            j <= n,
            n == maps@.len(),
            template.storage@ == zero_column(trace_len as nat),
            locs_maps_well_formed(
                variable_maps_locs(maps@),
                maps@.len(),
                trace_len as nat,
                values@.len(),
            ),
            result@.len() == j,
            forall|k: int|
                0 <= k < j ==> (#[trigger] result@[k]).storage@ == materialized_column(
                    values@,
                    variable_column_locs(maps@[k]@),
                ),
        decreases n - j,
    {
        let blank = template.clone_respecting_alignment();
        proof {
            let mlocs = variable_maps_locs(maps@);
            assert(mlocs[j as int] == variable_column_locs(maps@[j as int]@));
            assert(mlocs[j as int].len() == maps@[j as int]@.len());
            let locs_j = maps@[j as int]@;
            assert forall|i: int|
                0 <= i < locs_j.len() implies (#[trigger] locs_j[i]).spec_is_placeholder()
                || locs_j[i].raw < values@.len() by {
                assert(mlocs[j as int][i] == locs_j[i].raw);
            }
        }
        let filled = fill_variable_column(values, &maps[j], blank);
        result.push(filled);
        j = j + 1;
    }
    proof {
        assert(columns_view(result@) =~= materialized_columns(values@, variable_maps_locs(maps@)));
    }
    result
}

/// Witness-family analogue of [`materialize_variable_family`].
pub(crate) fn materialize_witness_family(
    values: &Vec<FieldElement>,
    maps: &Vec<Vec<crate::places::Witness>>,
    trace_len: usize,
) -> (r: Vec<Column>)
    requires
        locs_maps_well_formed(
            witness_maps_locs(maps@),
            maps@.len(),
            trace_len as nat,
            values@.len(),
        ),
    ensures
        r@.len() == maps@.len(),
        columns_view(r@) == materialized_columns(values@, witness_maps_locs(maps@)),
{
    let n = maps.len();
    let template = Column::zeroed(trace_len);
    let mut result: Vec<Column> = Vec::new();
    let mut j: usize = 0;
    while j < n
        invariant
            j <= n,
            n == maps@.len(),
            template.storage@ == zero_column(trace_len as nat),
            locs_maps_well_formed(
                witness_maps_locs(maps@),
                maps@.len(),
                trace_len as nat,
                values@.len(),
            ),
            result@.len() == j,
            forall|k: int|
                0 <= k < j ==> (#[trigger] result@[k]).storage@ == materialized_column(
                    values@,
                    witness_column_locs(maps@[k]@),
                ),
        decreases n - j,
    {
        let blank = template.clone_respecting_alignment();
        proof {
            let mlocs = witness_maps_locs(maps@);
            assert(mlocs[j as int] == witness_column_locs(maps@[j as int]@));
            assert(mlocs[j as int].len() == maps@[j as int]@.len());
            let locs_j = maps@[j as int]@;
            assert forall|i: int|
                0 <= i < locs_j.len() implies (#[trigger] locs_j[i]).spec_is_placeholder()
                || locs_j[i].raw < values@.len() by {
                assert(mlocs[j as int][i] == locs_j[i].raw);
            }
        }
        let filled = fill_witness_column(values, &maps[j], blank);
        result.push(filled);
        j = j + 1;
    }
    proof {
        assert(columns_view(result@) =~= materialized_columns(values@, witness_maps_locs(maps@)));
    }
    result
}

/// Concatenates a multiplicity bank's subtables into one flat counter array.
pub(crate) fn flatten_multiplicities(bank: &Vec<Vec<u32>>) -> (r: Vec<u32>)
    ensures
        r@ == flatten_bank(bank_view(bank@)),
{
    let mut flat: Vec<u32> = Vec::new();
    let num_tables = bank.len();
    let mut t: usize = 0;
    while t < num_tables
        invariant
            t <= num_tables,
            num_tables == bank@.len(),
            flat@ == flatten_bank(bank_view(bank@).take(t as int)),
        decreases num_tables - t,
    {
        let subtable = &bank[t];
        let rows = subtable.len();
        let mut i: usize = 0;
        while i < rows
            invariant
                i <= rows,
                t < num_tables,
                num_tables == bank@.len(),
                subtable@ == bank@[t as int]@,
                rows == bank@[t as int]@.len(),
                flat@ == flatten_bank(bank_view(bank@).take(t as int)) + bank@[t as int]@.take(
                    i as int,
                ),
            decreases rows - i,
        {
            flat.push(subtable[i]);
            proof {
                let row = bank@[t as int]@;
                assert(row.take((i + 1) as int) =~= row.take(i as int) + seq![row[i as int]]);
                assert(flat@ =~= flatten_bank(bank_view(bank@).take(t as int)) + row.take(
                    (i + 1) as int,
                ));
            }
            i = i + 1;
        }
        proof {
            lemma_flatten_bank_take_succ(bank_view(bank@), t as int);
            assert(bank@[t as int]@.take(rows as int) =~= bank_view(bank@)[t as int]);
            assert(flat@ =~= flatten_bank(bank_view(bank@).take((t + 1) as int)));
        }
        t = t + 1;
    }
    proof {
        assert(bank_view(bank@).take(num_tables as int) =~= bank_view(bank@));
    }
    flat
}

/// Embeds a flat counter array into one zeroed column of `trace_len` rows:
/// one directly embedded counter per lookup-table row, the rest at the
/// additive identity.
pub(crate) fn embed_counters_column(counters: &Vec<u32>, trace_len: usize) -> (r: Column)
    requires
        counters@.len() <= trace_len,
    ensures
        r.storage@ == multiplicity_column(counters@, trace_len as nat),
{
    let mut col = Column::zeroed(trace_len);
    let total = counters.len();
    let mut i: usize = 0;
    while i < total
        invariant
            i <= total,
            total == counters@.len(),
            total <= col.storage@.len(),
            col.storage@.len() == trace_len,
            forall|k: int|
                0 <= k < i ==> #[trigger] col.storage@[k] == (FieldElement {
                    repr: counters@[k] as u64,
                }),
            forall|k: int|
                i <= k < col.storage@.len() ==> #[trigger] col.storage@[k]
                    == FieldElement::spec_zero(),
        decreases total - i,
    {
        col.storage.set(i, FieldElement::from_counter(counters[i]));
        i = i + 1;
    }
    proof {
        assert(col.storage@ =~= multiplicity_column(counters@, trace_len as nat));
    }
    col
}

impl CSReferenceAssembly {
    /// Materializes the variable column family directly from the value store:
    /// waits for full resolution, then writes each placed value at its
    /// (column, row) position. A shape with no variable columns
    /// short-circuits to an empty result without allocating or waiting.
    /// Requires the configuration to retain placement data and to evaluate
    /// witness values; violating either is a fatal configuration mismatch
    /// in the surrounding pipeline, not a recoverable error.
    pub fn materialize_variables_polynomials(&mut self) -> (r: Vec<Column>)
        requires
            old(self).wf(),
            old(self).keep_setup,
            old(self).evaluate_witness,
        ensures
            Self::shape_unchanged(*old(self), *final(self)),
            old(self).num_variable_columns == 0 ==> *final(self) == *old(self),
            old(self).num_variable_columns > 0 ==> final(self).variables_storage.is_resolved(),
            r@.len() == old(self).num_variable_columns,
            columns_view(r@) == old(self).variable_columns_model(),
    {
        if self.num_variable_columns == 0 {
            let r: Vec<Column> = Vec::new();
            proof {
                assert(columns_view(r@) =~= self.variable_columns_model());
            }
            return r;
        }
        self.variables_storage.wait_till_resolved();
        let values = self.variables_storage.read();
        materialize_variable_family(values, &self.copy_permutation_data, self.max_trace_len)
    }

    /// Materializes the witness column family directly from the value store;
    /// structurally identical to the variable path, over the witness
    /// placement map.
    pub fn materialize_witness_polynomials(&mut self) -> (r: Vec<Column>)
        requires
            old(self).wf(),
            old(self).keep_setup,
            old(self).evaluate_witness,
        ensures
            Self::shape_unchanged(*old(self), *final(self)),
            old(self).num_witness_columns == 0 ==> *final(self) == *old(self),
            old(self).num_witness_columns > 0 ==> final(self).variables_storage.is_resolved(),
            r@.len() == old(self).num_witness_columns,
            columns_view(r@) == old(self).witness_columns_model(),
    {
        if self.num_witness_columns == 0 {
            let r: Vec<Column> = Vec::new();
            proof {
                assert(columns_view(r@) =~= self.witness_columns_model());
            }
            return r;
        }
        self.variables_storage.wait_till_resolved();
        let values = self.variables_storage.read();
        materialize_witness_family(values, &self.witness_placement_data, self.max_trace_len)
    }

    /// Flattens the multiplicity bank into one dense column of directly
    /// embedded counters, rows past the lookup-table length staying at the
    /// additive identity. A shape without lookups short-circuits to an empty
    /// result. The current design supports exactly one multiplicity column,
    /// which the shape invariant pins down.
    pub fn materialize_multiplicities_polynomials(&self) -> (r: Vec<Column>)
        requires
            self.wf(),
            self.evaluate_witness,
        ensures
            r@.len() == self.num_multiplicity_columns,
            columns_view(r@) == self.multiplicity_columns_model(),
    {
        if !self.lookup_enabled {
            let r: Vec<Column> = Vec::new();
            proof {
                assert(columns_view(r@) =~= self.multiplicity_columns_model());
            }
            return r;
        }
        let flat = flatten_multiplicities(&self.lookup_multiplicities);
        let col = embed_counters_column(&flat, self.max_trace_len);
        let mut result: Vec<Column> = Vec::new();
        result.push(col);
        proof {
            assert(columns_view(result@) =~= self.multiplicity_columns_model());
        }
        result
    }

    /// Live materialization of the witness family, but with the placement
    /// taken from a precomputed dense hint instead of the assembly's own
    /// placement data. The hint must match this circuit shape: a length
    /// disagreement is a fatal shape mismatch, an invariant of a fixed
    /// circuit that must never vary at runtime.
    pub fn materialize_witness_polynomials_from_dense_hint(
        &mut self,
        hint: &DenseWitnessCopyHint,
    ) -> (r: Vec<Column>)
        requires
            old(self).wf(),
            old(self).evaluate_witness,
            hint.well_formed(
                old(self).num_witness_columns as nat,
                old(self).max_trace_len as nat,
                old(self).next_available_place_idx as nat,
            ),
        ensures
            Self::shape_unchanged(*old(self), *final(self)),
            old(self).num_witness_columns == 0 ==> *final(self) == *old(self),
            old(self).num_witness_columns > 0 ==> final(self).variables_storage.is_resolved(),
            r@.len() == old(self).num_witness_columns,
            columns_view(r@) == materialized_columns(
                old(self).variables_storage.values(),
                witness_maps_locs(hint.maps@),
            ),
    {
        if self.num_witness_columns == 0 {
            let r: Vec<Column> = Vec::new();
            proof {
                assert(columns_view(r@) =~= materialized_columns(
                    self.variables_storage.values(),
                    witness_maps_locs(hint.maps@),
                ));
            }
            return r;
        }
        self.variables_storage.wait_till_resolved();
        let values = self.variables_storage.read();
        materialize_witness_family(values, &hint.maps, self.max_trace_len)
    }

    /// Variable-family analogue of
    /// [`Self::materialize_witness_polynomials_from_dense_hint`].
    pub fn materialize_variables_polynomials_from_dense_hint(
        &mut self,
        hint: &DenseVariablesCopyHint,
    ) -> (r: Vec<Column>)
        requires
            old(self).wf(),
            old(self).evaluate_witness,
            hint.well_formed(
                old(self).num_variable_columns as nat,
                old(self).max_trace_len as nat,
                old(self).next_available_place_idx as nat,
            ),
        ensures
            Self::shape_unchanged(*old(self), *final(self)),
            old(self).num_variable_columns == 0 ==> *final(self) == *old(self),
            old(self).num_variable_columns > 0 ==> final(self).variables_storage.is_resolved(),
            r@.len() == old(self).num_variable_columns,
            columns_view(r@) == materialized_columns(
                old(self).variables_storage.values(),
                variable_maps_locs(hint.maps@),
            ),
    {
        if self.num_variable_columns == 0 {
            let r: Vec<Column> = Vec::new();
            proof {
                assert(columns_view(r@) =~= materialized_columns(
                    self.variables_storage.values(),
                    variable_maps_locs(hint.maps@),
                ));
            }
            return r;
        }
        self.variables_storage.wait_till_resolved();
        let values = self.variables_storage.read();
        materialize_variable_family(values, &hint.maps, self.max_trace_len)
    }
}

} // verus!
