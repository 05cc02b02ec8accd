//! Witness-materialization layer of a constraint-system proving backend.
//!
//! Given a resolved value store and fixed column/row placement maps, the
//! engine produces dense field-element columns for the polynomial commitment
//! step, with unassigned (placeholder) cells left at the additive identity.
//! A flat, serializable snapshot of all resolved values (the compact witness
//! vector) supports a replay path that rebuilds the same columns without the
//! original value store.

mod assembly;
mod column;
mod engine;
mod field_element;
mod hints;
mod laws;
mod model;
mod places;
mod replay;
mod value_store;
mod witness_set;
mod witness_vec;

pub use assembly::CSReferenceAssembly;
pub use column::{columns_view, zero_column, Column};
pub use field_element::{FieldElement, FIELD_ORDER};
pub use laws::{
    lemma_cell_value_take, lemma_materialization_idempotent,
    lemma_materialize_flatten_replay_round_trip, lemma_materialized_columns_take,
    lemma_multiplicity_conservation, lemma_placeholder_invariance,
};
pub use hints::{
    locs_maps_well_formed, variable_column_locs, variable_maps_locs, witness_column_locs,
    witness_maps_locs, DenseVariablesCopyHint, DenseWitnessCopyHint,
};
pub use model::{
    bank_total, bank_view, cell_value, flatten_bank, lemma_flatten_bank_total,
    lemma_multiplicity_column_total, materialized_column, materialized_columns,
    multiplicity_column, sum_counters, sum_reprs,
};
pub use replay::{input_in_bounds, model_cell};
pub use places::{Place, Variable, Witness, PLACEHOLDER_RAW};
pub use value_store::ValueStore;
pub use witness_set::{families_agree, WitnessSet};
pub use witness_vec::{
    enc_counters, enc_pair, enc_pairs, enc_values, encoded_witness_vec, le_bytes, le_val,
    lemma_byte_round_trip, lemma_encoding_injective, pair_fits, pow256, valid_encoding,
    SerializationError, WitnessVec,
};
