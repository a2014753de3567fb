use ark_circom_witnesscalc::circuit::{CircomCircuit, Variable, R1CS};

fn circuit(num_inputs: usize, num_aux: usize, mapping: Option<Vec<usize>>, witness: Option<Vec<u64>>) -> CircomCircuit<u64> {
    CircomCircuit {
        r1cs: R1CS {
            num_inputs,
            num_aux,
            constraints: vec![(vec![(1, 1)], vec![(1, 1)], vec![(2, 1)])],
            wire_mapping: mapping,
        },
        witness,
    }
}

#[test]
fn public_inputs_without_mapping() {
    let c = circuit(3, 1, None, Some(vec![1, 7, 9, 42]));
    assert_eq!(c.get_public_inputs(), Some(vec![7, 9]));
}

#[test]
fn public_inputs_through_mapping() {
    let c = circuit(3, 1, Some(vec![0, 3, 1, 2]), Some(vec![1, 7, 9, 42]));
    assert_eq!(c.get_public_inputs(), Some(vec![42, 7]));
}

#[test]
fn public_inputs_need_a_witness() {
    let c = circuit(3, 1, None, None);
    assert_eq!(c.get_public_inputs(), None);
}

#[test]
fn constraints_over_backend_variables() {
    // x * x = y with x public (wire 1) and y private (wire 2).
    let c = circuit(2, 1, None, Some(vec![1, 3, 9]));
    let s = c.generate_constraints(1);
    assert_eq!(s.inputs, vec![3]);
    assert_eq!(s.witnesses, vec![9]);
    assert_eq!(s.constraints.len(), 1);
    let (a, b, cc) = &s.constraints[0];
    assert_eq!(a, &vec![(1, Variable::Instance(1))]);
    assert_eq!(b, &vec![(1, Variable::Instance(1))]);
    assert_eq!(cc, &vec![(1, Variable::Witness(0))]);
}

#[test]
fn setup_mode_gives_every_variable_one() {
    let c = circuit(3, 2, None, None);
    let s = c.generate_constraints(1);
    assert_eq!(s.inputs, vec![1, 1]);
    assert_eq!(s.witnesses, vec![1, 1]);
}

#[test]
fn witness_values_follow_the_mapping() {
    let c = circuit(2, 2, Some(vec![0, 3, 1, 2]), Some(vec![1, 10, 20, 30]));
    let s = c.generate_constraints(1);
    assert_eq!(s.inputs, vec![30]);
    assert_eq!(s.witnesses, vec![10, 20]);
}

#[test]
fn wire_indices_split_at_num_inputs() {
    let c = circuit(3, 2, None, None);
    assert_eq!(c.make_index(0), Variable::Instance(0));
    assert_eq!(c.make_index(2), Variable::Instance(2));
    assert_eq!(c.make_index(3), Variable::Witness(0));
    assert_eq!(c.make_index(4), Variable::Witness(1));
    assert_eq!(c.make_lc(&vec![(4, 5), (0, 6)]), vec![(5, Variable::Witness(1)), (6, Variable::Instance(0))]);
}

#[test]
fn constant_wire_slot_is_never_read() {
    // The mapping sends wire 0 outside the witness; only wires 1.. are read.
    let c = circuit(3, 1, Some(vec![99, 3, 1, 2]), Some(vec![1, 7, 9, 42]));
    assert!(c.slots_fit(4));
    assert_eq!(c.get_public_inputs(), Some(vec![42, 7]));
    let s = c.generate_constraints(1);
    assert_eq!(s.witnesses, vec![9]);
}

#[test]
fn slots_fit_detects_short_witness() {
    let c = circuit(3, 1, None, Some(vec![1, 7]));
    assert!(c.slots_fit(2));
    assert!(!c.slots_fit(3));
    let c = circuit(3, 1, Some(vec![0, 1, 5]), Some(vec![1, 7, 9]));
    assert!(c.slots_fit(2));
    assert!(!c.slots_fit(3));
    assert!(!c.slots_fit(4));
    assert!(circuit(3, 1, None, None).slots_fit(10));
}
