//! Membership of affine points in the BN254 source groups.
use crate::codec::Fq2Int;
use crate::field::{base_modulus, FieldInt};
use ark_ff::PrimeField;
use vstd::prelude::*;

verus! {

/// The point lies on the G1 curve `y^2 = x^3 + 3` over the base field. Every
/// such point is in G1, whose cofactor is one.
pub open spec fn on_g1(x: nat, y: nat) -> bool {
    (y * y) % base_modulus() == (x * x * x + 3) % base_modulus()
}

/// The point with these coordinates over the quadratic extension lies on the
/// twist curve and in its prime-order subgroup G2.
pub uninterp spec fn on_g2(x: (nat, nat), y: (nat, nat)) -> bool;

/// Relies on ark-ec's `Affine::is_on_curve` for BN254 G1, whose curve has
/// `a = 0` and `b = 3`: it compares `y^2` with `x^3 + 3` in the base field.
#[verifier::external_body]
pub(crate) fn g1_on_curve(x: &FieldInt, y: &FieldInt) -> (r: bool)
    requires
        x@ < base_modulus(),
        y@ < base_modulus(),
    ensures
        r == on_g1(x@, y@),
{
    let fx = ark_bn254::Fq::from_bigint(ark_ff::BigInt(x.limbs)).unwrap();
    let fy = ark_bn254::Fq::from_bigint(ark_ff::BigInt(y.limbs)).unwrap();
    ark_bn254::G1Affine::new_unchecked(fx, fy).is_on_curve()
}

/// Relies on ark-ec's `Affine::is_on_curve` and on BN254 G2's
/// `is_in_correct_subgroup_assuming_on_curve`: the point lies on the twist
/// curve and in the prime-order subgroup.
#[verifier::external_body]
pub(crate) fn g2_on_curve(x: &Fq2Int, y: &Fq2Int) -> (r: bool)
    requires
        x.c0@ < base_modulus(),
        x.c1@ < base_modulus(),
        y.c0@ < base_modulus(),
        y.c1@ < base_modulus(),
    ensures
        r == on_g2((x.c0@, x.c1@), (y.c0@, y.c1@)),
{
    let x0 = ark_bn254::Fq::from_bigint(ark_ff::BigInt(x.c0.limbs)).unwrap();
    let x1 = ark_bn254::Fq::from_bigint(ark_ff::BigInt(x.c1.limbs)).unwrap();
    let y0 = ark_bn254::Fq::from_bigint(ark_ff::BigInt(y.c0.limbs)).unwrap();
    let y1 = ark_bn254::Fq::from_bigint(ark_ff::BigInt(y.c1.limbs)).unwrap();
    let fx = ark_bn254::Fq2::new(x0, x1);
    let p = ark_bn254::G2Affine::new_unchecked(fx, ark_bn254::Fq2::new(y0, y1));
    p.is_on_curve() && p.is_in_correct_subgroup_assuming_on_curve()
}

} // verus!
