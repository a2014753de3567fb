use ark_circom_witnesscalc::codec::{
    g1_point_to_strings, parse_field_element, parse_g1_point_from_strings,
    parse_g2_point_from_coords, CodecError, Coordinate, PointError, PointSite, ProofJson,
    VerifyingKey, VerifyingKeyJson,
};
use ark_circom_witnesscalc::field::{u64_to_decimal, FieldInt};
use ark_circom_witnesscalc::json_text::{proof_to_json, verifying_key_to_json};

fn s(t: &str) -> String {
    t.to_string()
}

fn g1(x: &str, y: &str, z: &str) -> [String; 3] {
    [s(x), s(y), s(z)]
}

fn g2(a: &str, b: &str, c: &str, d: &str) -> [[String; 2]; 3] {
    [[s(a), s(b)], [s(c), s(d)], [s("1"), s("0")]]
}

fn sample_key_json() -> VerifyingKeyJson {
    VerifyingKeyJson {
        protocol: s("groth16"),
        curve: s("bn128"),
        n_public: 2,
        vk_alpha_1: g1(
            "14294736614990674966396623028803009115049001595062557165449477993453732800914",
            "16403779603127981111404952147536838932574573959885092213466973207730988248744",
            "1",
        ),
        vk_beta_2: g2(
            "3690250390531159792182810706199558530011152443236236316148429759851202632185",
            "7181447983574240535096108951419011671122610106706318811519767758412121191671",
            "18903949123289243237360231390412925963082099721924281123079749233292975283708",
            "11752118997903370298075117314340230052476465863449911602944876945651913830724",
        ),
        vk_gamma_2: g2(
            "2772204544545143745036642647329016796016477347816712789345741859457088126286",
            "5820988467473537566833519916519597543631455780504447427080278108971502609568",
            "6920072944147306036917161943266759424466930268609042427928446187786171160694",
            "338394630223224278219244011824126808724142848749307879698459195126736965603",
        ),
        vk_delta_2: g2(
            "18747970342366397216484970789592543900248114418300490001193977733049641644946",
            "1409455623867796783765628324117898066639067722535957637572506835201777023154",
            "10044353901010805573702826446649533157093287966227536611798472884805014233421",
            "1100455837014046159940971754605909292700516718490931598674110957434711818264",
        ),
        ic: vec![
            g1(
                "20662526494079920157061002738647583446881021430596087771228299228351005766192",
                "5748308059588685207234398742531008825939341408141823519188647173863100181444",
                "1",
            ),
            g1(
                "3268982782370409438690550254080177231796009753224998922477477781476537484434",
                "7283492216111651860872429609223050515931611851121597633410734094315586405131",
                "1",
            ),
            g1(
                "4400968086040099372960574301818625400334606309655325517678832007445237168329",
                "17295528924224860754510996071213162727241147380616405972755183483481875721340",
                "1",
            ),
        ],
    }
}

fn sample_proof_json() -> ProofJson {
    ProofJson {
        protocol: s("groth16"),
        proof_type: s("proof"),
        curve: s("bn128"),
        a: g1(
            "19801287090726837578044200885001440254402844668381646296109323380504107979463",
            "16223645295886758837836946460684489930824831996298592009362843244530537565095",
            "1",
        ),
        b: g2(
            "14419158160229828478156294188598564679024729352043826435394413630574520415635",
            "13227541383047502364817281770506826380994950495371717515327355831245222863808",
            "10170314160637616072929693052506642860784907058519406560969697126545938282647",
            "7701434206311278289343724947323209665008169752900822212424490783498470765028",
        ),
        c: g1(
            "15931542535481606335382873551011159013606998048559820372751278530993816517682",
            "9936785827820229135526754961312073112426012772106930225610536358663776965",
            "1",
        ),
        inputs: vec![s("110"), s("11")],
    }
}

#[test]
fn test_verifying_key_deserialization() {
    let result = VerifyingKey::try_from_json(&sample_key_json());
    assert!(result.is_ok(), "Failed to deserialize verifying key: {:?}", result.err());
    let vk = result.unwrap();
    assert_eq!(vk.gamma_abc_g1.len(), 3, "Expected 3 IC elements (nPublic=2 + 1)");

    let serialized = VerifyingKeyJson::from_key(&vk);
    let vk2_result = VerifyingKey::try_from_json(&serialized);
    assert!(
        vk2_result.is_ok(),
        "Failed to deserialize roundtrip verifying key: {:?}",
        vk2_result.err()
    );
    let vk2 = vk2_result.unwrap();
    assert_eq!(vk.gamma_abc_g1.len(), vk2.gamma_abc_g1.len(), "IC length mismatch after roundtrip");
    assert_eq!(vk.alpha_g1, vk2.alpha_g1, "alpha_g1 mismatch after roundtrip");
    assert_eq!(vk.beta_g2, vk2.beta_g2, "beta_g2 mismatch after roundtrip");
    assert_eq!(vk.gamma_g2, vk2.gamma_g2, "gamma_g2 mismatch after roundtrip");
    assert_eq!(vk.delta_g2, vk2.delta_g2, "delta_g2 mismatch after roundtrip");
    assert_eq!(vk.gamma_abc_g1, vk2.gamma_abc_g1, "gamma_abc_g1 mismatch after roundtrip");
}

#[test]
fn test_proof_deserialization() {
    let result = sample_proof_json().try_into_proof();
    assert!(result.is_ok(), "Failed to deserialize proof: {:?}", result.err());
    let (proof, public_inputs) = result.unwrap();
    assert_eq!(public_inputs.len(), 2, "Expected 2 public inputs");
    assert_eq!(public_inputs[0].to_decimal(), "110", "First input mismatch");
    assert_eq!(public_inputs[1].to_decimal(), "11", "Second input mismatch");

    let serialized = ProofJson::from_proof(&proof, &public_inputs);
    let (proof2, public_inputs2) = serialized.try_into_proof().unwrap();
    assert_eq!(proof.a, proof2.a, "Point A mismatch after roundtrip");
    assert_eq!(proof.b, proof2.b, "Point B mismatch after roundtrip");
    assert_eq!(proof.c, proof2.c, "Point C mismatch after roundtrip");
    assert_eq!(
        public_inputs.len(),
        public_inputs2.len(),
        "Public inputs length mismatch after roundtrip"
    );
    for (i, (input1, input2)) in public_inputs.iter().zip(public_inputs2.iter()).enumerate() {
        assert_eq!(input1, input2, "Public input {} mismatch after roundtrip", i);
    }
}

#[test]
fn key_json_round_trip_keeps_texts() {
    let j = sample_key_json();
    let vk = VerifyingKey::try_from_json(&j).unwrap();
    let back = VerifyingKeyJson::from_key(&vk);
    assert_eq!(back.vk_alpha_1, j.vk_alpha_1);
    assert_eq!(back.vk_beta_2, j.vk_beta_2);
    assert_eq!(back.ic, j.ic);
    assert_eq!(back.n_public, 2);
}

#[test]
fn g1_point_with_sentinel_two_is_refused() {
    let r = parse_g1_point_from_strings("1", "2", "2");
    assert_eq!(r, Err(PointError::NotAffineG1(s("2"))));
}

#[test]
fn g2_point_with_wrong_sentinel_is_refused() {
    let mut coords = g2("1", "2", "3", "4");
    coords[2] = [s("0"), s("1")];
    let r = parse_g2_point_from_coords(&coords);
    assert_eq!(r, Err(PointError::NotAffineG2(s("0"), s("1"))));
}

#[test]
fn proof_with_non_affine_point_is_refused() {
    let mut j = sample_proof_json();
    j.c[2] = s("2");
    let r = j.try_into_proof();
    assert_eq!(r.err(), Some(CodecError::Point(PointSite::C, PointError::NotAffineG1(s("2")))));
}

#[test]
fn key_with_non_affine_ic_point_is_refused() {
    let mut j = sample_key_json();
    j.ic[1][2] = s("0");
    let r = VerifyingKey::try_from_json(&j);
    assert_eq!(r.err(), Some(CodecError::Point(PointSite::Ic(1), PointError::NotAffineG1(s("0")))));
}

#[test]
fn proof_with_plonk_protocol_is_refused() {
    let mut j = sample_proof_json();
    j.protocol = s("plonk");
    assert_eq!(j.try_into_proof().err(), Some(CodecError::Protocol(s("plonk"))));
}

#[test]
fn proof_with_bn256_curve_is_refused() {
    let mut j = sample_proof_json();
    j.curve = s("bn256");
    assert_eq!(j.try_into_proof().err(), Some(CodecError::Curve(s("bn256"))));
}

#[test]
fn proof_with_wrong_type_is_refused() {
    let mut j = sample_proof_json();
    j.proof_type = s("key");
    assert_eq!(j.try_into_proof().err(), Some(CodecError::ProofType(s("key"))));
}

#[test]
fn key_with_bad_tags_is_refused() {
    let mut j = sample_key_json();
    j.protocol = s("plonk");
    assert_eq!(VerifyingKey::try_from_json(&j).err(), Some(CodecError::Protocol(s("plonk"))));
    let mut j = sample_key_json();
    j.curve = s("bn256");
    assert_eq!(VerifyingKey::try_from_json(&j).err(), Some(CodecError::Curve(s("bn256"))));
}

#[test]
fn unparsable_coordinate_is_named() {
    let r = parse_g1_point_from_strings("12", "0x10", "1");
    assert_eq!(r, Err(PointError::BadCoordinate(Coordinate::Y, s("0x10"))));
    let r = parse_g1_point_from_strings("", "1", "1");
    assert_eq!(r, Err(PointError::BadCoordinate(Coordinate::X, s(""))));
}

#[test]
fn coordinate_at_modulus_is_refused() {
    let q = "21888242871839275222246405745257275088696311157297823662689037894645226208583";
    let r = parse_g1_point_from_strings(q, "1", "1");
    assert_eq!(r, Err(PointError::BadCoordinate(Coordinate::X, s(q))));
    let below = "21888242871839275222246405745257275088696311157297823662689037894645226208582";
    let r = parse_g1_point_from_strings(below, "1", "1");
    assert_eq!(r, Err(PointError::NotOnCurve));
}

#[test]
fn bad_public_input_is_named() {
    let mut j = sample_proof_json();
    j.inputs = vec![s("5"), s("-3")];
    assert_eq!(j.try_into_proof().err(), Some(CodecError::BadInput(1, s("-3"))));
}

#[test]
fn field_element_text_forms() {
    assert_eq!(parse_field_element("42"), Some(FieldInt::from_u64(42)));
    assert_eq!(parse_field_element("007"), Some(FieldInt::from_u64(7)));
    assert_eq!(parse_field_element("+42"), None);
    assert_eq!(parse_field_element("1_000"), None);
    assert_eq!(parse_field_element("-1"), None);
    assert_eq!(parse_field_element(" 1"), None);
    assert_eq!(parse_field_element("_1"), None);
    assert_eq!(parse_field_element("++1"), None);
    assert_eq!(parse_field_element(""), None);
    let r = "21888242871839275222246405745257275088548364400416034343698204186575808495617";
    assert_eq!(parse_field_element(r), None);
    let below = "21888242871839275222246405745257275088548364400416034343698204186575808495616";
    assert_eq!(parse_field_element(below).unwrap().to_decimal(), below);
}

#[test]
fn limbs_are_written_in_decimal() {
    let v = FieldInt { limbs: [0, 1, 0, 0] };
    assert_eq!(v.to_decimal(), "18446744073709551616");
    assert_eq!(u64_to_decimal(0), "0");
    assert_eq!(u64_to_decimal(18446744073709551615), "18446744073709551615");
}

#[test]
fn limb_comparison_uses_the_high_limb_first() {
    let a = FieldInt { limbs: [5, 0, 0, 1] };
    let b = FieldInt { limbs: [0, 0, 0, 2] };
    assert!(a.less_than(&b));
    assert!(!b.less_than(&a));
    assert!(!a.less_than(&a));
    assert!(FieldInt::scalar_modulus().less_than(&FieldInt::base_modulus()));
}

#[test]
fn point_texts_are_decimal_with_sentinel() {
    let p = parse_g1_point_from_strings("1", "2", "1").unwrap();
    assert_eq!(g1_point_to_strings(&p), [s("1"), s("2"), s("1")]);
}

#[test]
fn proof_json_text_layout() {
    let (proof, inputs) = sample_proof_json().try_into_proof().unwrap();
    let text = proof_to_json(&proof, &inputs);
    assert!(text.starts_with("{\n\t\"protocol\":\"groth16\",\n\t\"type\":\"proof\",\n\t\"curve\":\"bn128\",\n"));
    assert!(text.contains("\t\"c\": [\"15931542535481606335382873551011159013606998048559820372751278530993816517682\", \"9936785827820229135526754961312073112426012772106930225610536358663776965\", \"1\"],\n"));
    assert!(text.ends_with("\t\"inputs\": [\n\t\t\"110\",\n\t\t\"11\"\n\t]\n}\n"));
}

#[test]
fn key_json_text_layout() {
    let vk = VerifyingKey::try_from_json(&sample_key_json()).unwrap();
    let text = verifying_key_to_json(&vk);
    assert!(text.starts_with("{\n\t\"protocol\":\"groth16\",\n\t\"curve\":\"bn128\",\n\t\"nPublic\": 2,\n"));
    assert!(text.contains("[\"1\",\"0\"]") == false);
    assert!(text.contains(", [\"1\", \"0\"]],\n"));
    assert!(text.ends_with("\"1\"]\n\t]\n}\n"));
    assert_eq!(text.matches("\t\t[").count(), 3);
}

const G2_X0: &str = "10857046999023057135944570762232829481370756359578518086990519993285655852781";
const G2_X1: &str = "11559732032986387107991004021392285783925812861821192530917403151452391805634";
const G2_Y0: &str = "8495653923123431417604973247489272438418190587263600148770280649306958101930";
const G2_Y1: &str = "4082367875863433681332203403145435568316851327593401208105741076214120093531";

#[test]
fn g1_point_off_the_curve_is_refused() {
    assert_eq!(parse_g1_point_from_strings("1", "1", "1"), Err(PointError::NotOnCurve));
    assert_eq!(parse_g1_point_from_strings("0", "0", "1"), Err(PointError::NotOnCurve));
    let p = parse_g1_point_from_strings("1", "2", "1").unwrap();
    assert_eq!(p.y.to_decimal(), "2");
}

#[test]
fn g2_generator_is_accepted() {
    let p = parse_g2_point_from_coords(&g2(G2_X0, G2_X1, G2_Y0, G2_Y1)).unwrap();
    assert_eq!(p.x.c1.to_decimal(), G2_X1);
    assert_eq!(p.y.c0.to_decimal(), G2_Y0);
}

#[test]
fn g2_point_off_the_curve_is_refused() {
    let r = parse_g2_point_from_coords(&g2("1", "0", "1", "0"));
    assert_eq!(r, Err(PointError::NotOnCurve));
    let r = parse_g2_point_from_coords(&g2(G2_X0, G2_X1, G2_Y1, G2_Y0));
    assert_eq!(r, Err(PointError::NotOnCurve));
}

#[test]
fn proof_with_off_curve_point_is_refused() {
    let mut j = sample_proof_json();
    j.a = g1("1", "1", "1");
    let r = j.try_into_proof();
    assert_eq!(r.err(), Some(CodecError::Point(PointSite::A, PointError::NotOnCurve)));
    let mut j = sample_key_json();
    j.ic[2] = g1("5", "7", "1");
    let r = VerifyingKey::try_from_json(&j);
    assert_eq!(r.err(), Some(CodecError::Point(PointSite::Ic(2), PointError::NotOnCurve)));
}

#[test]
fn signed_or_separated_coordinates_are_refused() {
    let r = parse_g1_point_from_strings("+1", "2", "1");
    assert_eq!(r, Err(PointError::BadCoordinate(Coordinate::X, s("+1"))));
    let r = parse_g1_point_from_strings("1", "2_0", "1");
    assert_eq!(r, Err(PointError::BadCoordinate(Coordinate::Y, s("2_0"))));
}
