use ark_circom_witnesscalc::field::FieldInt;
use ark_circom_witnesscalc::r1cs::{read_r1cs, R1csError};

fn u32le(out: &mut Vec<u8>, v: u32) {
    out.extend_from_slice(&v.to_le_bytes());
}

fn u64le(out: &mut Vec<u8>, v: u64) {
    out.extend_from_slice(&v.to_le_bytes());
}

fn coeff(out: &mut Vec<u8>, v: u64) {
    u64le(out, v);
    out.extend_from_slice(&[0u8; 24]);
}

fn section(out: &mut Vec<u8>, kind: u32, data: &[u8]) {
    u32le(out, kind);
    u64le(out, data.len() as u64);
    out.extend_from_slice(data);
}

fn header(n8: u32, wires: u32, pub_out: u32, pub_in: u32, constraints: u32) -> Vec<u8> {
    let mut h = Vec::new();
    u32le(&mut h, n8);
    h.extend_from_slice(&[0u8; 32]);
    u32le(&mut h, wires);
    u32le(&mut h, pub_out);
    u32le(&mut h, pub_in);
    u32le(&mut h, 0);
    u64le(&mut h, wires as u64);
    u32le(&mut h, constraints);
    h
}

/// x * x = y: wire 1 public, wire 2 private; one constraint.
fn square_constraints() -> Vec<u8> {
    let mut c = Vec::new();
    for (wire, k) in [(1u32, 1u64), (1, 1), (2, 5)] {
        u32le(&mut c, 1);
        u32le(&mut c, wire);
        coeff(&mut c, k);
    }
    c
}

fn file(sections: &[(u32, Vec<u8>)]) -> Vec<u8> {
    let mut f = b"r1cs".to_vec();
    u32le(&mut f, 1);
    u32le(&mut f, sections.len() as u32);
    for (k, d) in sections {
        section(&mut f, *k, d);
    }
    f
}

#[test]
fn reads_square_circuit() {
    let mut map = Vec::new();
    for w in [0u64, 2, 1] {
        u64le(&mut map, w);
    }
    let f = file(&[(1, header(32, 3, 0, 1, 1)), (2, square_constraints()), (3, map)]);
    let r = read_r1cs(&f).unwrap();
    assert_eq!(r.num_inputs, 2);
    assert_eq!(r.num_aux, 1);
    assert_eq!(r.constraints.len(), 1);
    let (a, b, c) = &r.constraints[0];
    assert_eq!(a, &vec![(1, FieldInt::from_u64(1))]);
    assert_eq!(b, &vec![(1, FieldInt::from_u64(1))]);
    assert_eq!(c, &vec![(2, FieldInt::from_u64(5))]);
    assert_eq!(r.wire_mapping, Some(vec![0, 2, 1]));
}

#[test]
fn sections_may_come_in_any_order() {
    let f = file(&[(2, square_constraints()), (4, vec![9, 9]), (1, header(32, 3, 1, 0, 1))]);
    let r = read_r1cs(&f).unwrap();
    assert_eq!(r.num_inputs, 2);
    assert_eq!(r.wire_mapping, None);
}

#[test]
fn refuses_bad_containers() {
    let good = file(&[(1, header(32, 3, 0, 1, 1)), (2, square_constraints())]);
    let mut bad = good.clone();
    bad[0] = b'x';
    assert_eq!(read_r1cs(&bad).err(), Some(R1csError::BadMagic));
    assert_eq!(read_r1cs(&good[..good.len() - 1]).err(), Some(R1csError::Truncated));
    assert_eq!(read_r1cs(&good[..8]).err(), Some(R1csError::Truncated));
    let f = file(&[(2, square_constraints())]);
    assert_eq!(read_r1cs(&f).err(), Some(R1csError::MissingSection(1)));
    let f = file(&[(1, header(32, 3, 0, 1, 1))]);
    assert_eq!(read_r1cs(&f).err(), Some(R1csError::MissingSection(2)));
    let f = file(&[(1, header(48, 3, 0, 1, 1)), (2, square_constraints())]);
    assert_eq!(read_r1cs(&f).err(), Some(R1csError::FieldSize(48)));
    let f = file(&[(1, header(32, 1, 1, 1, 1)), (2, square_constraints())]);
    assert_eq!(read_r1cs(&f).err(), Some(R1csError::Inconsistent));
}
