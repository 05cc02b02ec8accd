use witness_materialization::{
    CSReferenceAssembly, DenseVariablesCopyHint, DenseWitnessCopyHint, FieldElement,
    SerializationError, ValueStore, Variable, Witness, WitnessSet, WitnessVec,
};

fn fe(x: u64) -> FieldElement {
    FieldElement { repr: x }
}

fn var(i: u64) -> Variable {
    Variable::from_variable_index(i)
}

fn var_ph() -> Variable {
    Variable::placeholder()
}

fn wit(i: u64) -> Witness {
    Witness::from_witness_index(i)
}

fn wit_ph() -> Witness {
    Witness::placeholder()
}

fn sample_assembly() -> CSReferenceAssembly {
    CSReferenceAssembly {
        evaluate_witness: true,
        keep_setup: true,
        max_trace_len: 4,
        num_variable_columns: 2,
        num_witness_columns: 1,
        lookup_enabled: true,
        num_multiplicity_columns: 1,
        variables_storage: ValueStore::new_resolved(vec![
            fe(10),
            fe(20),
            fe(30),
            fe(40),
            fe(50),
        ]),
        copy_permutation_data: vec![
            vec![var(0), var(1), var_ph(), var(2)],
            vec![var(3), var_ph(), var(0), var(1)],
        ],
        witness_placement_data: vec![vec![wit_ph(), wit(4), wit(2), wit_ph()]],
        lookup_multiplicities: vec![vec![1, 2], vec![3]],
        public_inputs: vec![(0, 0), (1, 3)],
        next_available_place_idx: 5,
    }
}

fn hints_of(cs: &CSReferenceAssembly) -> (DenseVariablesCopyHint, DenseWitnessCopyHint) {
    (
        DenseVariablesCopyHint { maps: cs.copy_permutation_data.clone() },
        DenseWitnessCopyHint { maps: cs.witness_placement_data.clone() },
    )
}

#[test]
fn flatten_copies_values_locations_and_multiplicities() {
    let mut cs = sample_assembly();
    let vector = cs.materialize_witness_vec();
    assert_eq!(vector.public_inputs_locations, vec![(0, 0), (1, 3)]);
    let reprs: Vec<u64> = vector.all_values.iter().map(|f| f.repr).collect();
    assert_eq!(reprs, vec![10, 20, 30, 40, 50]);
    assert_eq!(vector.multiplicities, vec![1, 2, 3]);
}

#[test]
fn flatten_without_lookups_leaves_multiplicities_empty() {
    let mut cs = sample_assembly();
    cs.lookup_enabled = false;
    cs.num_multiplicity_columns = 0;
    let vector = cs.materialize_witness_vec();
    assert!(vector.multiplicities.is_empty());
}

#[test]
fn materialize_then_flatten_then_replay_round_trips() {
    let mut cs = sample_assembly();
    let (vars_hint, wits_hint) = hints_of(&cs);

    let direct = WitnessSet {
        public_inputs_values: vec![],
        public_inputs_with_locations: vec![],
        variables: cs.materialize_variables_polynomials(),
        witness: cs.materialize_witness_polynomials(),
        multiplicities: cs.materialize_multiplicities_polynomials(),
    };

    let vector = cs.materialize_witness_vec();
    let replayed = cs.witness_set_from_witness_vec(&vector, &vars_hint, &wits_hint);

    assert!(direct.pretty_compare(&replayed));
    assert!(replayed.pretty_compare(&direct));
}

#[test]
fn pretty_compare_reports_differing_columns() {
    let mut cs = sample_assembly();
    let (vars_hint, wits_hint) = hints_of(&cs);
    let vector = cs.materialize_witness_vec();
    let a = cs.witness_set_from_witness_vec(&vector, &vars_hint, &wits_hint);
    let mut b = cs.witness_set_from_witness_vec(&vector, &vars_hint, &wits_hint);
    b.variables[1].storage[0] = fe(999);
    assert!(!a.pretty_compare(&b));
}

#[test]
fn public_inputs_are_extracted_from_variable_columns() {
    // trace of length 4, two variable columns; the hint resolves
    // column 0 row 3 to value A = 111 and column 1 row 1 to value B = 222
    let cs = CSReferenceAssembly {
        evaluate_witness: true,
        keep_setup: true,
        max_trace_len: 4,
        num_variable_columns: 2,
        num_witness_columns: 0,
        lookup_enabled: false,
        num_multiplicity_columns: 0,
        variables_storage: ValueStore::new_resolved(vec![]),
        copy_permutation_data: vec![],
        witness_placement_data: vec![],
        lookup_multiplicities: vec![],
        public_inputs: vec![],
        next_available_place_idx: 1,
    };
    let vector = WitnessVec {
        public_inputs_locations: vec![(0, 3), (1, 1)],
        all_values: vec![fe(111), fe(222)],
        multiplicities: vec![],
    };
    let vars_hint = DenseVariablesCopyHint {
        maps: vec![
            vec![var_ph(), var_ph(), var_ph(), var(0)],
            vec![var_ph(), var(1), var_ph(), var_ph()],
        ],
    };
    let wits_hint = DenseWitnessCopyHint { maps: vec![] };
    let replayed = cs.witness_set_from_witness_vec(&vector, &vars_hint, &wits_hint);
    assert_eq!(replayed.public_inputs_values, vec![fe(111), fe(222)]);
    assert_eq!(
        replayed.public_inputs_with_locations,
        vec![(0, 3, fe(111)), (1, 1, fe(222))]
    );
}

#[test]
fn byte_round_trip_preserves_every_field() {
    let vector = WitnessVec {
        public_inputs_locations: vec![(0, 0), (1, 3), (7, 2)],
        all_values: vec![fe(10), fe(0), fe(u64::MAX), fe(42)],
        multiplicities: vec![1, 0, u32::MAX],
    };
    let mut bytes: Vec<u8> = Vec::new();
    vector.write_into_buffer(&mut bytes);
    let decoded = WitnessVec::read_from_buffer(&bytes).unwrap();
    assert_eq!(decoded.public_inputs_locations, vector.public_inputs_locations);
    assert_eq!(decoded.all_values, vector.all_values);
    assert_eq!(decoded.multiplicities, vector.multiplicities);
}

#[test]
fn byte_round_trip_of_empty_vector() {
    let vector = WitnessVec {
        public_inputs_locations: vec![],
        all_values: vec![],
        multiplicities: vec![],
    };
    let mut bytes: Vec<u8> = Vec::new();
    vector.write_into_buffer(&mut bytes);
    assert_eq!(bytes.len(), 24);
    let decoded = WitnessVec::read_from_buffer(&bytes).unwrap();
    assert!(decoded.public_inputs_locations.is_empty());
    assert!(decoded.all_values.is_empty());
    assert!(decoded.multiplicities.is_empty());
}

#[test]
fn truncated_buffer_is_a_recoverable_error() {
    let vector = WitnessVec {
        public_inputs_locations: vec![(2, 5)],
        all_values: vec![fe(77)],
        multiplicities: vec![3],
    };
    let mut bytes: Vec<u8> = Vec::new();
    vector.write_into_buffer(&mut bytes);
    for cut in 0..bytes.len() {
        let r = WitnessVec::read_from_buffer(&bytes[..cut].to_vec());
        assert_eq!(r.unwrap_err(), SerializationError::Malformed);
    }
}

#[test]
fn trailing_bytes_are_a_recoverable_error() {
    let vector = WitnessVec {
        public_inputs_locations: vec![],
        all_values: vec![fe(1)],
        multiplicities: vec![],
    };
    let mut bytes: Vec<u8> = Vec::new();
    vector.write_into_buffer(&mut bytes);
    bytes.push(0);
    assert!(WitnessVec::read_from_buffer(&bytes).is_err());
}

#[test]
fn oversized_declared_length_is_a_recoverable_error() {
    let mut bytes: Vec<u8> = Vec::new();
    // declare u64::MAX public-input positions, provide none
    for _ in 0..8 {
        bytes.push(0xFF);
    }
    for _ in 0..16 {
        bytes.push(0);
    }
    assert!(WitnessVec::read_from_buffer(&bytes).is_err());
}
