use witness_materialization::{
    CSReferenceAssembly, Column, DenseVariablesCopyHint, DenseWitnessCopyHint, FieldElement,
    Place, ValueStore, Variable, Witness,
};

fn fe(x: u64) -> FieldElement {
    FieldElement { repr: x }
}

fn var(i: u64) -> Variable {
    Variable::from_variable_index(i)
}

fn var_ph() -> Variable {
    Variable::placeholder()
}

fn wit(i: u64) -> Witness {
    Witness::from_witness_index(i)
}

fn wit_ph() -> Witness {
    Witness::placeholder()
}

fn column_reprs(col: &Column) -> Vec<u64> {
    col.storage.iter().map(|f| f.repr).collect()
}

/// An assembly with two variable columns, one witness column, lookups with
/// two subtables, and two public inputs, over a trace of length 4.
fn sample_assembly() -> CSReferenceAssembly {
    CSReferenceAssembly {
        evaluate_witness: true,
        keep_setup: true,
        max_trace_len: 4,
        num_variable_columns: 2,
        num_witness_columns: 1,
        lookup_enabled: true,
        num_multiplicity_columns: 1,
        variables_storage: ValueStore::new_resolved(vec![
            fe(10),
            fe(20),
            fe(30),
            fe(40),
            fe(50),
        ]),
        copy_permutation_data: vec![
            vec![var(0), var(1), var_ph(), var(2)],
            vec![var(3), var_ph(), var(0), var(1)],
        ],
        witness_placement_data: vec![vec![wit_ph(), wit(4), wit(2), wit_ph()]],
        lookup_multiplicities: vec![vec![1, 2], vec![3]],
        public_inputs: vec![(0, 0), (1, 3)],
        next_available_place_idx: 5,
    }
}

#[test]
fn scenario_single_variable_column() {
    let mut cs = CSReferenceAssembly {
        evaluate_witness: true,
        keep_setup: true,
        max_trace_len: 8,
        num_variable_columns: 1,
        num_witness_columns: 0,
        lookup_enabled: false,
        num_multiplicity_columns: 0,
        variables_storage: ValueStore::new_resolved(vec![fe(5), fe(9)]),
        copy_permutation_data: vec![vec![
            var(0),
            var_ph(),
            var(1),
            var_ph(),
            var(0),
            var(1),
            var_ph(),
            var_ph(),
        ]],
        witness_placement_data: vec![],
        lookup_multiplicities: vec![],
        public_inputs: vec![],
        next_available_place_idx: 2,
    };
    let cols = cs.materialize_variables_polynomials();
    assert_eq!(cols.len(), 1);
    assert_eq!(column_reprs(&cols[0]), vec![5, 0, 9, 0, 5, 9, 0, 0]);
}

#[test]
fn variables_and_witness_families() {
    let mut cs = sample_assembly();
    let vars = cs.materialize_variables_polynomials();
    assert_eq!(vars.len(), 2);
    assert_eq!(column_reprs(&vars[0]), vec![10, 20, 0, 30]);
    assert_eq!(column_reprs(&vars[1]), vec![40, 0, 10, 20]);
    let wits = cs.materialize_witness_polynomials();
    assert_eq!(wits.len(), 1);
    assert_eq!(column_reprs(&wits[0]), vec![0, 50, 30, 0]);
}

#[test]
fn placeholder_rows_stay_zero_for_any_store() {
    let mut first = sample_assembly();
    let mut second = sample_assembly();
    second.variables_storage =
        ValueStore::new_resolved(vec![fe(7), fe(8), fe(9), fe(11), fe(12)]);
    let cols_first = first.materialize_variables_polynomials();
    let cols_second = second.materialize_variables_polynomials();
    // rows placed with the placeholder sentinel: column 0 row 2, column 1 row 1
    assert_eq!(cols_first[0].storage[2].repr, 0);
    assert_eq!(cols_second[0].storage[2].repr, 0);
    assert_eq!(cols_first[1].storage[1].repr, 0);
    assert_eq!(cols_second[1].storage[1].repr, 0);
}

#[test]
fn materialization_is_idempotent() {
    let mut cs = sample_assembly();
    let first = cs.materialize_variables_polynomials();
    let second = cs.materialize_variables_polynomials();
    assert_eq!(first.len(), second.len());
    for (a, b) in first.iter().zip(second.iter()) {
        assert!(a.equals(b));
    }
    let wits_first = cs.materialize_witness_polynomials();
    let wits_second = cs.materialize_witness_polynomials();
    for (a, b) in wits_first.iter().zip(wits_second.iter()) {
        assert!(a.equals(b));
    }
}

#[test]
fn zero_column_families_short_circuit() {
    let mut cs = sample_assembly();
    cs.num_witness_columns = 0;
    cs.witness_placement_data = vec![];
    let wits = cs.materialize_witness_polynomials();
    assert!(wits.is_empty());

    cs.lookup_enabled = false;
    cs.num_multiplicity_columns = 0;
    let mults = cs.materialize_multiplicities_polynomials();
    assert!(mults.is_empty());

    cs.num_variable_columns = 0;
    cs.copy_permutation_data = vec![];
    let vars = cs.materialize_variables_polynomials();
    assert!(vars.is_empty());
}

#[test]
fn multiplicities_flatten_into_one_padded_column() {
    let cs = sample_assembly();
    let mults = cs.materialize_multiplicities_polynomials();
    assert_eq!(mults.len(), 1);
    assert_eq!(column_reprs(&mults[0]), vec![1, 2, 3, 0]);
    // direct embedding: the column total equals the bank total
    let column_total: u64 = mults[0].storage.iter().map(|f| f.repr).sum();
    assert_eq!(column_total, 6);
}

#[test]
fn multiplicity_increments_are_conserved() {
    let mut cs = sample_assembly();
    cs.lookup_multiplicities = vec![vec![0, 0], vec![0]];
    cs.increment_multiplicity(0, 1);
    cs.increment_multiplicity(0, 1);
    cs.increment_multiplicity(0, 1);
    cs.increment_multiplicity(1, 0);
    cs.increment_multiplicity(1, 0);
    let mults = cs.materialize_multiplicities_polynomials();
    assert_eq!(column_reprs(&mults[0]), vec![0, 3, 2, 0]);
    let column_total: u64 = mults[0].storage.iter().map(|f| f.repr).sum();
    assert_eq!(column_total, 5);
}

#[test]
fn wait_for_witness_resolves_pending_store() {
    let mut cs = sample_assembly();
    cs.variables_storage = ValueStore::new_pending(vec![fe(10), fe(20), fe(30), fe(40), fe(50)]);
    cs.wait_for_witness();
    let vars = cs.materialize_variables_polynomials();
    assert_eq!(column_reprs(&vars[0]), vec![10, 20, 0, 30]);
}

#[test]
fn dense_hints_match_live_placement() {
    let mut cs = sample_assembly();
    let vars_hint = DenseVariablesCopyHint { maps: cs.copy_permutation_data.clone() };
    let wits_hint = DenseWitnessCopyHint { maps: cs.witness_placement_data.clone() };
    let live_vars = cs.materialize_variables_polynomials();
    let hint_vars = cs.materialize_variables_polynomials_from_dense_hint(&vars_hint);
    for (a, b) in live_vars.iter().zip(hint_vars.iter()) {
        assert!(a.equals(b));
    }
    let live_wits = cs.materialize_witness_polynomials();
    let hint_wits = cs.materialize_witness_polynomials_from_dense_hint(&wits_hint);
    for (a, b) in live_wits.iter().zip(hint_wits.iter()) {
        assert!(a.equals(b));
    }
}

#[test]
fn column_template_and_clone_preserve_contents() {
    let template = Column::zeroed(6);
    assert_eq!(template.len(), 6);
    assert!(template.storage.iter().all(|f| f.repr == 0));
    let copy = template.clone_respecting_alignment();
    assert!(template.equals(&copy));

    let other = Column::zeroed(5);
    assert!(!template.equals(&other));
}

#[test]
fn field_element_embedding_is_direct() {
    assert_eq!(FieldElement::zero().repr, 0);
    assert_eq!(FieldElement::from_u64_unchecked(123456789).repr, 123456789);
    assert_eq!(FieldElement::from_counter(u32::MAX).repr, u32::MAX as u64);
}

#[test]
fn location_views_invert_to_raw_indices() {
    let v = Variable::from_variable_index(17);
    assert!(!v.is_placeholder());
    assert_eq!(v.as_variable_index(), 17);
    assert!(Variable::placeholder().is_placeholder());

    let w = Witness::from_witness_index(23);
    assert!(!w.is_placeholder());
    assert_eq!(w.as_witness_index(), 23);
    assert!(Witness::placeholder().is_placeholder());

    assert_eq!(Place::from_variable(v).raw_index(), 17);
    assert_eq!(Place::from_witness(w).raw_index(), 23);
    assert_eq!(Place::new(5).raw_index(), 5);
}
