use ark_bn254::{Bn254, Fq, Fq2, Fr, G1Affine, G2Affine};
use ark_crypto_primitives::snark::SNARK;
use ark_ff::{BigInt, PrimeField};
use ark_groth16::r1cs_to_qap::LibsnarkReduction;
use ark_groth16::{prepare_verifying_key, Groth16};
use ark_std::rand::{rngs::StdRng, SeedableRng};
use ark_relations::r1cs::{
    ConstraintSynthesizer, ConstraintSystemRef, LinearCombination, SynthesisError, Variable,
};

use ark_circom_witnesscalc::circuit::{self, CircomCircuit, R1CS};
use ark_circom_witnesscalc::codec::{CodecError, G1Point, G2Point, Fq2Int, Proof, ProofJson};
use ark_circom_witnesscalc::field::FieldInt;

type Prover = Groth16<Bn254, LibsnarkReduction>;

struct Synth(CircomCircuit<Fr>);

fn lc(terms: &[(Fr, circuit::Variable)]) -> LinearCombination<Fr> {
    terms.iter().fold(LinearCombination::zero(), |lc, (c, v)| {
        let var = match v {
            circuit::Variable::Instance(i) => Variable::Instance(*i),
            circuit::Variable::Witness(i) => Variable::Witness(*i),
        };
        lc + (*c, var)
    })
}

impl ConstraintSynthesizer<Fr> for Synth {
    fn generate_constraints(self, cs: ConstraintSystemRef<Fr>) -> Result<(), SynthesisError> {
        let plan = self.0.generate_constraints(Fr::from(1u32));
        for v in plan.inputs {
            cs.new_input_variable(|| Ok(v))?;
        }
        for v in plan.witnesses {
            cs.new_witness_variable(|| Ok(v))?;
        }
        for (a, b, c) in &plan.constraints {
            cs.enforce_constraint(lc(a), lc(b), lc(c))?;
        }
        Ok(())
    }
}

/// x * x = y, with x public (wire 1) and y private (wire 2).
fn square_circuit(witness: Option<Vec<Fr>>) -> CircomCircuit<Fr> {
    let one = Fr::from(1u32);
    CircomCircuit {
        r1cs: R1CS {
            num_inputs: 2,
            num_aux: 1,
            constraints: vec![(vec![(1, one)], vec![(1, one)], vec![(2, one)])],
            wire_mapping: None,
        },
        witness,
    }
}

fn fq_int(v: &Fq) -> FieldInt {
    FieldInt { limbs: v.into_bigint().0 }
}

fn fq(v: &FieldInt) -> Fq {
    Fq::from_bigint(BigInt(v.limbs)).unwrap()
}

fn to_lib(p: &ark_groth16::Proof<Bn254>) -> Proof {
    let g1 = |a: &G1Affine| G1Point { x: fq_int(&a.x), y: fq_int(&a.y) };
    let fq2 = |a: &Fq2| Fq2Int { c0: fq_int(&a.c0), c1: fq_int(&a.c1) };
    let g2 = |a: &G2Affine| G2Point { x: fq2(&a.x), y: fq2(&a.y) };
    Proof { a: g1(&p.a), b: g2(&p.b), c: g1(&p.c) }
}

fn to_ark(p: &Proof) -> ark_groth16::Proof<Bn254> {
    let g1 = |a: &G1Point| G1Affine::new(fq(&a.x), fq(&a.y));
    let fq2 = |a: &Fq2Int| Fq2::new(fq(&a.c0), fq(&a.c1));
    let g2 = |a: &G2Point| G2Affine::new(fq2(&a.x), fq2(&a.y));
    ark_groth16::Proof { a: g1(&p.a), b: g2(&p.b), c: g1(&p.c) }
}

#[test]
fn square_circuit_proves_and_verifies_through_json() {
    let mut rng = StdRng::seed_from_u64(7);
    let pk = Prover::generate_random_parameters_with_reduction(Synth(square_circuit(None)), &mut rng)
        .unwrap();
    let circuit = square_circuit(Some(vec![Fr::from(1u32), Fr::from(3u32), Fr::from(9u32)]));
    let public = circuit.get_public_inputs().unwrap();
    assert_eq!(public, vec![Fr::from(3u32)]);
    let proof = Prover::prove(&pk, Synth(circuit), &mut rng).unwrap();
    let pvk = prepare_verifying_key(&pk.vk);

    let inputs: Vec<FieldInt> = public.iter().map(|v| FieldInt { limbs: v.into_bigint().0 }).collect();
    let json = ProofJson::from_proof(&to_lib(&proof), &inputs);
    assert_eq!(json.inputs, vec!["3".to_string()]);

    let (decoded, decoded_inputs) = json.try_into_proof().unwrap();
    let ark_inputs: Vec<Fr> = decoded_inputs.iter().map(|v| Fr::from_bigint(BigInt(v.limbs)).unwrap()).collect();
    assert!(Prover::verify_proof(&pvk, &to_ark(&decoded), &ark_inputs).unwrap());

    // A different public input is a well-formed proof that does not verify.
    let mut tampered = json.clone();
    tampered.inputs[0] = "4".to_string();
    let (p2, i2) = tampered.try_into_proof().unwrap();
    let i2: Vec<Fr> = i2.iter().map(|v| Fr::from_bigint(BigInt(v.limbs)).unwrap()).collect();
    assert!(!Prover::verify_proof(&pvk, &to_ark(&p2), &i2).unwrap());

    // A broken sentinel or tag is a decode error, not a failed verification.
    let mut broken = json.clone();
    broken.a[2] = "2".to_string();
    assert!(matches!(broken.try_into_proof(), Err(CodecError::Point(_, _))));
    let mut broken = json;
    broken.curve = "bn256".to_string();
    assert!(matches!(broken.try_into_proof(), Err(CodecError::Curve(_))));
}
