use vstd::prelude::*;

use crate::assembly::CSReferenceAssembly;
use crate::field_element::FieldElement;
use crate::hints::{variable_maps_locs, witness_maps_locs, DenseVariablesCopyHint, DenseWitnessCopyHint};
use crate::model::{
    bank_total, bank_view, cell_value, lemma_flatten_bank_total, lemma_multiplicity_column_total,
    materialized_column, materialized_columns, multiplicity_column, sum_reprs,
};
use crate::places::PLACEHOLDER_RAW;
use crate::witness_vec::WitnessVec;

verus! {

/// A cell materialized from a prefix of the value store equals the cell
/// materialized from the whole store, as long as the location lies inside
/// the prefix (or is the placeholder).
pub proof fn lemma_cell_value_take(values: Seq<FieldElement>, n: int, loc: u64)
    requires
        0 <= n <= values.len(),
        loc == PLACEHOLDER_RAW || loc < n,
    ensures
        cell_value(values.take(n), loc) == cell_value(values, loc),
{
}

/// Columns materialized from a prefix of the value store equal the columns
/// materialized from the whole store, when every placed location lies inside
/// the prefix.
pub proof fn lemma_materialized_columns_take(
    values: Seq<FieldElement>,
    n: int,
    maps: Seq<Seq<u64>>,
)
    requires
        0 <= n <= values.len(),
        forall|j: int, i: int|
            0 <= j < maps.len() && 0 <= i < maps[j].len() ==> #[trigger] maps[j][i]
                == PLACEHOLDER_RAW || maps[j][i] < n,
    ensures
        materialized_columns(values.take(n), maps) == materialized_columns(values, maps),
{
    assert forall|j: int| 0 <= j < maps.len() implies #[trigger] materialized_columns(
        values.take(n),
        maps,
    )[j] == materialized_columns(values, maps)[j] by {
        assert forall|i: int| 0 <= i < maps[j].len() implies #[trigger] materialized_column(
            values.take(n),
            maps[j],
        )[i] == materialized_column(values, maps[j])[i] by {
            lemma_cell_value_take(values, n, maps[j][i]);
        }
        assert(materialized_column(values.take(n), maps[j]) =~= materialized_column(
            values,
            maps[j],
        ));
    }
    assert(materialized_columns(values.take(n), maps) =~= materialized_columns(values, maps));
}

/// Round-trip law: flattening a resolved assembly into a compact witness
/// vector and replaying it through placement hints that match the assembly's
/// own placement reproduces, element for element, the columns of direct
/// materialization — variables, witnesses and multiplicities alike. The
/// vector hypotheses are exactly what `materialize_witness_vec` ensures; the
/// replay side's columns are exactly what `witness_set_from_witness_vec`
/// ensures over the same hints.
pub proof fn lemma_materialize_flatten_replay_round_trip(
    cs: CSReferenceAssembly,
    vector: WitnessVec,
    vars_hint: DenseVariablesCopyHint,
    wits_hint: DenseWitnessCopyHint,
)
    requires
        cs.wf(),
        vector.all_values@ == cs.variables_storage.values().take(
            cs.next_available_place_idx as int,
        ),
        cs.lookup_enabled ==> vector.multiplicities@ == cs.multiplicity_counters(),
        variable_maps_locs(vars_hint.maps@) == variable_maps_locs(cs.copy_permutation_data@),
        witness_maps_locs(wits_hint.maps@) == witness_maps_locs(cs.witness_placement_data@),
    ensures
        materialized_columns(vector.all_values@, variable_maps_locs(vars_hint.maps@))
            == cs.variable_columns_model(),
        materialized_columns(vector.all_values@, witness_maps_locs(wits_hint.maps@))
            == cs.witness_columns_model(),
        cs.lookup_enabled ==> multiplicity_column(vector.multiplicities@, cs.max_trace_len as nat)
            == multiplicity_column(cs.multiplicity_counters(), cs.max_trace_len as nat),
{
    lemma_materialized_columns_take(
        cs.variables_storage.values(),
        cs.next_available_place_idx as int,
        variable_maps_locs(cs.copy_permutation_data@),
    );
    lemma_materialized_columns_take(
        cs.variables_storage.values(),
        cs.next_available_place_idx as int,
        witness_maps_locs(cs.witness_placement_data@),
    );
}

/// Placeholder invariance: every row whose placement entry is the
/// placeholder sentinel materializes to the additive identity, whatever the
/// value store holds.
pub proof fn lemma_placeholder_invariance(
    values: Seq<FieldElement>,
    maps: Seq<Seq<u64>>,
    j: int,
    i: int,
)
    requires
        0 <= j < maps.len(),
        0 <= i < maps[j].len(),
        maps[j][i] == PLACEHOLDER_RAW,
    ensures
        materialized_columns(values, maps)[j][i] == FieldElement::spec_zero(),
{
}

/// Idempotence: two materializations from the same unchanged value store and
/// placement data yield bit-identical columns. `shape_unchanged` is exactly
/// what every materialization call guarantees about the assembly it leaves
/// behind, so a second call is a materialization of an assembly related to
/// the first by this relation.
pub proof fn lemma_materialization_idempotent(
    cs1: CSReferenceAssembly,
    cs2: CSReferenceAssembly,
)
    requires
        CSReferenceAssembly::shape_unchanged(cs1, cs2),
    ensures
        cs1.variable_columns_model() == cs2.variable_columns_model(),
        cs1.witness_columns_model() == cs2.witness_columns_model(),
        cs1.multiplicity_columns_model() == cs2.multiplicity_columns_model(),
{
}

/// Multiplicity conservation: the sum of the flattened multiplicity column's
/// entries equals the total of all counters in the bank — and so, by the
/// contract of `increment_multiplicity` (each call grows the bank's total by
/// exactly one), the number of increments applied during synthesis on top of
/// the initial bank total.
pub proof fn lemma_multiplicity_conservation(cs: CSReferenceAssembly)
    requires
        cs.wf(),
        cs.lookup_enabled,
    ensures
        sum_reprs(cs.multiplicity_columns_model()[0]) == bank_total(
            bank_view(cs.lookup_multiplicities@),
        ),
{
    lemma_flatten_bank_total(bank_view(cs.lookup_multiplicities@));
    lemma_multiplicity_column_total(cs.multiplicity_counters(), cs.max_trace_len as nat);
}

} // verus!
