//! The canonical JSON layout of Groth16 proofs and verifying keys over BN254:
//! tags, decimal coordinates and affine sentinels, encoded and strictly decoded.
use crate::field::{
    base_modulus, decimal, decimal_value, field_int_to_decimal, lemma_decimal_reads_back,
    parse_bounded, scalar_modulus, FieldInt,
};
use crate::curve::{g1_on_curve, g2_on_curve, on_g1, on_g2};
use vstd::prelude::*;
use vstd::string::*;

verus! {

broadcast use vstd::seq::group_seq_axioms;

// ---------------------------------------------------------------------------
// Values
// ---------------------------------------------------------------------------

/// A point of the first source group in affine form.
#[derive(Clone, Copy, Debug, PartialEq, Eq)]
pub struct G1Point {
    pub x: FieldInt,
    pub y: FieldInt,
}

/// An element of the quadratic extension of the base field: `c0 + c1 * u`.
#[derive(Clone, Copy, Debug, PartialEq, Eq)]
pub struct Fq2Int {
    pub c0: FieldInt,
    pub c1: FieldInt,
}

/// A point of the second source group in affine form.
#[derive(Clone, Copy, Debug, PartialEq, Eq)]
pub struct G2Point {
    pub x: Fq2Int,
    pub y: Fq2Int,
}

/// A Groth16 proof.
#[derive(Clone, Copy, Debug, PartialEq, Eq)]
pub struct Proof {
    pub a: G1Point,
    pub b: G2Point,
    pub c: G1Point,
}

/// A Groth16 verifying key; `gamma_abc_g1` holds one point for the constant
/// and one for each public input.
#[derive(Clone, Debug, PartialEq, Eq)]
pub struct VerifyingKey {
    pub alpha_g1: G1Point,
    pub beta_g2: G2Point,
    pub gamma_g2: G2Point,
    pub delta_g2: G2Point,
    pub gamma_abc_g1: Vec<G1Point>,
}

pub type G1View = (nat, nat);

pub type G2View = ((nat, nat), (nat, nat));

impl View for G1Point {
    type V = G1View;

    open spec fn view(&self) -> G1View {
        (self.x@, self.y@)
    }
}

impl View for G2Point {
    type V = G2View;

    open spec fn view(&self) -> G2View {
        ((self.x.c0@, self.x.c1@), (self.y.c0@, self.y.c1@))
    }
}

/// A proof as the coordinates of its three points.
pub struct ProofView {
    pub a: G1View,
    pub b: G2View,
    pub c: G1View,
}

impl View for Proof {
    type V = ProofView;

    open spec fn view(&self) -> ProofView {
        ProofView { a: self.a@, b: self.b@, c: self.c@ }
    }
}

/// A verifying key as the coordinates of its points.
pub struct KeyView {
    pub alpha: G1View,
    pub beta: G2View,
    pub gamma: G2View,
    pub delta: G2View,
    pub ic: Seq<G1View>,
}

pub open spec fn g1_views(v: Seq<G1Point>) -> Seq<G1View> {
    v.map_values(|p: G1Point| p@)
}

pub open spec fn int_views(v: Seq<FieldInt>) -> Seq<nat> {
    v.map_values(|p: FieldInt| p@)
}

impl View for VerifyingKey {
    type V = KeyView;

    open spec fn view(&self) -> KeyView {
        KeyView {
            alpha: self.alpha_g1@,
            beta: self.beta_g2@,
            gamma: self.gamma_g2@,
            delta: self.delta_g2@,
            ic: g1_views(self.gamma_abc_g1@),
        }
    }
}

/// Both coordinates are reduced elements of the base field and the point is
/// in G1.
pub open spec fn g1_valid(p: G1View) -> bool {
    p.0 < base_modulus() && p.1 < base_modulus() && on_g1(p.0, p.1)
}

/// Every coordinate is a reduced element of the base field and the point is
/// in G2.
pub open spec fn g2_valid(p: G2View) -> bool {
    &&& p.0.0 < base_modulus()
    &&& p.0.1 < base_modulus()
    &&& p.1.0 < base_modulus()
    &&& p.1.1 < base_modulus()
    &&& on_g2(p.0, p.1)
}

/// Every coordinate of the proof is reduced.
pub open spec fn proof_valid(p: ProofView) -> bool {
    g1_valid(p.a) && g2_valid(p.b) && g1_valid(p.c)
}

/// Every coordinate of the key is reduced and the key has its constant point.
pub open spec fn key_valid(k: KeyView) -> bool {
    &&& g1_valid(k.alpha)
    &&& g2_valid(k.beta)
    &&& g2_valid(k.gamma)
    &&& g2_valid(k.delta)
    &&& k.ic.len() >= 1
    &&& forall|i: int| 0 <= i < k.ic.len() ==> g1_valid(#[trigger] k.ic[i])
}

/// Every public input is a reduced element of the scalar field.
pub open spec fn inputs_valid(v: Seq<nat>) -> bool {
    forall|i: int| 0 <= i < v.len() ==> #[trigger] v[i] < scalar_modulus()
}

// ---------------------------------------------------------------------------
// JSON layout
// ---------------------------------------------------------------------------

/// A verifying key in the JSON layout, every number as decimal text.
/// `n_public` is informational: it is written as the number of public inputs
/// and not checked when a key is read.
#[derive(Clone, Debug)]
pub struct VerifyingKeyJson {
    pub protocol: String,
    pub curve: String,
    pub n_public: usize,
    pub vk_alpha_1: [String; 3],
    pub vk_beta_2: [[String; 2]; 3],
    pub vk_gamma_2: [[String; 2]; 3],
    pub vk_delta_2: [[String; 2]; 3],
    pub ic: Vec<[String; 3]>,
}

/// A proof with its public inputs in the JSON layout.
#[derive(Clone, Debug)]
pub struct ProofJson {
    pub protocol: String,
    pub proof_type: String,
    pub curve: String,
    pub a: [String; 3],
    pub b: [[String; 2]; 3],
    pub c: [String; 3],
    pub inputs: Vec<String>,
}

pub type Text = Seq<char>;

/// The texts of a G1 point: `[x, y, "1"]`.
pub type G1Texts = Seq<Text>;

/// The texts of a G2 point: `[[x.c0, x.c1], [y.c0, y.c1], ["1", "0"]]`.
pub type G2Texts = Seq<Seq<Text>>;

pub open spec fn texts(v: Seq<String>) -> Seq<Text> {
    v.map_values(|s: String| s@)
}

pub open spec fn g1_texts_of(a: [String; 3]) -> G1Texts {
    texts(a@)
}

pub open spec fn g2_texts_of(a: [[String; 2]; 3]) -> G2Texts {
    a@.map_values(|p: [String; 2]| texts(p@))
}

/// The content of a `VerifyingKeyJson`.
pub struct KeyJsonView {
    pub protocol: Text,
    pub curve: Text,
    pub n_public: nat,
    pub alpha: G1Texts,
    pub beta: G2Texts,
    pub gamma: G2Texts,
    pub delta: G2Texts,
    pub ic: Seq<G1Texts>,
}

/// The content of a `ProofJson`.
pub struct ProofJsonView {
    pub protocol: Text,
    pub proof_type: Text,
    pub curve: Text,
    pub a: G1Texts,
    pub b: G2Texts,
    pub c: G1Texts,
    pub inputs: Seq<Text>,
}

impl View for VerifyingKeyJson {
    type V = KeyJsonView;

    open spec fn view(&self) -> KeyJsonView {
        KeyJsonView {
            protocol: self.protocol@,
            curve: self.curve@,
            n_public: self.n_public as nat,
            alpha: g1_texts_of(self.vk_alpha_1),
            beta: g2_texts_of(self.vk_beta_2),
            gamma: g2_texts_of(self.vk_gamma_2),
            delta: g2_texts_of(self.vk_delta_2),
            ic: self.ic@.map_values(|p: [String; 3]| g1_texts_of(p)),
        }
    }
}

impl View for ProofJson {
    type V = ProofJsonView;

    open spec fn view(&self) -> ProofJsonView {
        ProofJsonView {
            protocol: self.protocol@,
            proof_type: self.proof_type@,
            curve: self.curve@,
            a: g1_texts_of(self.a),
            b: g2_texts_of(self.b),
            c: g1_texts_of(self.c),
            inputs: texts(self.inputs@),
        }
    }
}

/// The protocol tag.
pub open spec fn groth16_tag() -> Text {
    "groth16"@
}

/// The curve tag.
pub open spec fn bn128_tag() -> Text {
    "bn128"@
}

/// The type tag of a proof.
pub open spec fn proof_tag() -> Text {
    "proof"@
}

pub open spec fn one_text() -> Text {
    "1"@
}

pub open spec fn zero_text() -> Text {
    "0"@
}

/// The JSON texts of a G1 point.
pub open spec fn encode_g1(p: G1View) -> G1Texts {
    seq![decimal(p.0), decimal(p.1), one_text()]
}

/// The JSON texts of a G2 point.
pub open spec fn encode_g2(p: G2View) -> G2Texts {
    seq![
        seq![decimal(p.0.0), decimal(p.0.1)],
        seq![decimal(p.1.0), decimal(p.1.1)],
        seq![one_text(), zero_text()],
    ]
}

/// The JSON content of a verifying key.
pub open spec fn encode_key(k: KeyView) -> KeyJsonView {
    KeyJsonView {
        protocol: groth16_tag(),
        curve: bn128_tag(),
        n_public: (k.ic.len() - 1) as nat,
        alpha: encode_g1(k.alpha),
        beta: encode_g2(k.beta),
        gamma: encode_g2(k.gamma),
        delta: encode_g2(k.delta),
        ic: k.ic.map_values(|p: G1View| encode_g1(p)),
    }
}

/// The JSON content of a proof and its public inputs.
pub open spec fn encode_proof(p: ProofView, inputs: Seq<nat>) -> ProofJsonView {
    ProofJsonView {
        protocol: groth16_tag(),
        proof_type: proof_tag(),
        curve: bn128_tag(),
        a: encode_g1(p.a),
        b: encode_g2(p.b),
        c: encode_g1(p.c),
        inputs: inputs.map_values(|v: nat| decimal(v)),
    }
}

// ---------------------------------------------------------------------------
// Errors
// ---------------------------------------------------------------------------

/// A coordinate of a point.
#[derive(Clone, Copy, Debug, PartialEq, Eq, Structural)]
pub enum Coordinate {
    X,
    Y,
    XC0,
    XC1,
    YC0,
    YC1,
}

/// Why the texts of a point were refused.
#[derive(Clone, Debug, PartialEq, Eq)]
pub enum PointError {
    /// The third text of a G1 point is not `"1"`; it holds that text.
    NotAffineG1(String),
    /// The third pair of a G2 point is not `["1", "0"]`; it holds that pair.
    NotAffineG2(String, String),
    /// The text of this coordinate is no reduced element of the base field.
    BadCoordinate(Coordinate, String),
    /// The coordinates are read but the point is not in its group.
    NotOnCurve,
}

/// Which point of a key or proof an error concerns.
#[derive(Clone, Copy, Debug, PartialEq, Eq, Structural)]
pub enum PointSite {
    Alpha,
    Beta,
    Gamma,
    Delta,
    Ic(usize),
    A,
    B,
    C,
}

/// Why a JSON key or proof was refused.
#[derive(Clone, Debug, PartialEq, Eq)]
pub enum CodecError {
    /// The protocol tag is not `groth16`; it holds the tag found.
    Protocol(String),
    /// The curve tag is not `bn128`; it holds the tag found.
    Curve(String),
    /// The type tag of a proof is not `proof`; it holds the tag found.
    ProofType(String),
    /// A point was refused.
    Point(PointSite, PointError),
    /// The public input at this index is no reduced element of the scalar
    /// field; it holds its text.
    BadInput(usize, String),
}

pub enum PointFault {
    NotAffineG1(Text),
    NotAffineG2(Text, Text),
    BadCoordinate(Coordinate, Text),
    NotOnCurve,
}

pub enum CodecFault {
    Protocol(Text),
    Curve(Text),
    ProofType(Text),
    Point(PointSite, PointFault),
    BadInput(nat, Text),
}

impl View for PointError {
    type V = PointFault;

    open spec fn view(&self) -> PointFault {
        match self {
            PointError::NotAffineG1(z) => PointFault::NotAffineG1(z@),
            PointError::NotAffineG2(z0, z1) => PointFault::NotAffineG2(z0@, z1@),
            PointError::BadCoordinate(c, t) => PointFault::BadCoordinate(*c, t@),
            PointError::NotOnCurve => PointFault::NotOnCurve,
        }
    }
}

impl View for CodecError {
    type V = CodecFault;

    open spec fn view(&self) -> CodecFault {
        match self {
            CodecError::Protocol(t) => CodecFault::Protocol(t@),
            CodecError::Curve(t) => CodecFault::Curve(t@),
            CodecError::ProofType(t) => CodecFault::ProofType(t@),
            CodecError::Point(s, e) => CodecFault::Point(*s, e@),
            CodecError::BadInput(i, t) => CodecFault::BadInput(*i as nat, t@),
        }
    }
}

// ---------------------------------------------------------------------------
// Decoding, as a specification
// ---------------------------------------------------------------------------

/// The base-field element that a text denotes, if it is a reduced one.
pub open spec fn coord(t: Text) -> Option<nat> {
    decimal_value(t, base_modulus())
}

/// Reads a G1 point from its three texts.
pub open spec fn decode_g1(t: G1Texts) -> Result<G1View, PointFault> {
    if t[2] != one_text() {
        Err(PointFault::NotAffineG1(t[2]))
    } else if coord(t[0]) is None {
        Err(PointFault::BadCoordinate(Coordinate::X, t[0]))
    } else if coord(t[1]) is None {
        Err(PointFault::BadCoordinate(Coordinate::Y, t[1]))
    } else if !on_g1(coord(t[0])->0, coord(t[1])->0) {
        Err(PointFault::NotOnCurve)
    } else {
        Ok((coord(t[0])->0, coord(t[1])->0))
    }
}

/// Reads a G2 point from its three pairs of texts.
pub open spec fn decode_g2(t: G2Texts) -> Result<G2View, PointFault> {
    if t[2][0] != one_text() || t[2][1] != zero_text() {
        Err(PointFault::NotAffineG2(t[2][0], t[2][1]))
    } else if coord(t[0][0]) is None {
        Err(PointFault::BadCoordinate(Coordinate::XC0, t[0][0]))
    } else if coord(t[0][1]) is None {
        Err(PointFault::BadCoordinate(Coordinate::XC1, t[0][1]))
    } else if coord(t[1][0]) is None {
        Err(PointFault::BadCoordinate(Coordinate::YC0, t[1][0]))
    } else if coord(t[1][1]) is None {
        Err(PointFault::BadCoordinate(Coordinate::YC1, t[1][1]))
    } else if !on_g2(
        (coord(t[0][0])->0, coord(t[0][1])->0),
        (coord(t[1][0])->0, coord(t[1][1])->0),
    ) {
        Err(PointFault::NotOnCurve)
    } else {
        Ok(
            (
                (coord(t[0][0])->0, coord(t[0][1])->0),
                (coord(t[1][0])->0, coord(t[1][1])->0),
            ),
        )
    }
}

/// Reads the points of a key's `IC` list; the first point refused gives its
/// index and the reason.
pub open spec fn decode_ic(ic: Seq<G1Texts>) -> Result<Seq<G1View>, (nat, PointFault)>
    decreases ic.len(),
{
    if ic.len() == 0 {
        Ok(Seq::empty())
    } else {
        match decode_ic(ic.subrange(0, ic.len() - 1)) {
            Err(e) => Err(e),
            Ok(ps) => match decode_g1(ic[ic.len() - 1]) {
                Err(f) => Err(((ic.len() - 1) as nat, f)),
                Ok(p) => Ok(ps.push(p)),
            },
        }
    }
}

/// Reads public inputs; the first text that is no reduced scalar gives its
/// index and text.
pub open spec fn decode_inputs(ts: Seq<Text>) -> Result<Seq<nat>, (nat, Text)>
    decreases ts.len(),
{
    if ts.len() == 0 {
        Ok(Seq::empty())
    } else {
        match decode_inputs(ts.subrange(0, ts.len() - 1)) {
            Err(e) => Err(e),
            Ok(vs) => match decimal_value(ts[ts.len() - 1], scalar_modulus()) {
                None => Err(((ts.len() - 1) as nat, ts[ts.len() - 1])),
                Some(v) => Ok(vs.push(v)),
            },
        }
    }
}

/// Reads a verifying key: tags first, then alpha, beta, gamma, delta and the
/// `IC` points in order. `n_public` is not read.
pub open spec fn decode_key(j: KeyJsonView) -> Result<KeyView, CodecFault> {
    if j.protocol != groth16_tag() {
        Err(CodecFault::Protocol(j.protocol))
    } else if j.curve != bn128_tag() {
        Err(CodecFault::Curve(j.curve))
    } else if decode_g1(j.alpha) is Err {
        Err(CodecFault::Point(PointSite::Alpha, decode_g1(j.alpha)->Err_0))
    } else if decode_g2(j.beta) is Err {
        Err(CodecFault::Point(PointSite::Beta, decode_g2(j.beta)->Err_0))
    } else if decode_g2(j.gamma) is Err {
        Err(CodecFault::Point(PointSite::Gamma, decode_g2(j.gamma)->Err_0))
    } else if decode_g2(j.delta) is Err {
        Err(CodecFault::Point(PointSite::Delta, decode_g2(j.delta)->Err_0))
    } else if decode_ic(j.ic) is Err {
        Err(
            CodecFault::Point(
                PointSite::Ic(decode_ic(j.ic)->Err_0.0 as usize),
                decode_ic(j.ic)->Err_0.1,
            ),
        )
    } else {
        Ok(
            KeyView {
                alpha: decode_g1(j.alpha)->Ok_0,
                beta: decode_g2(j.beta)->Ok_0,
                gamma: decode_g2(j.gamma)->Ok_0,
                delta: decode_g2(j.delta)->Ok_0,
                ic: decode_ic(j.ic)->Ok_0,
            },
        )
    }
}

/// Reads a proof and its public inputs: tags (protocol, curve, type), then
/// `a`, `c`, `b` and the inputs in order.
pub open spec fn decode_proof(j: ProofJsonView) -> Result<(ProofView, Seq<nat>), CodecFault> {
    if j.protocol != groth16_tag() {
        Err(CodecFault::Protocol(j.protocol))
    } else if j.curve != bn128_tag() {
        Err(CodecFault::Curve(j.curve))
    } else if j.proof_type != proof_tag() {
        Err(CodecFault::ProofType(j.proof_type))
    } else if decode_g1(j.a) is Err {
        Err(CodecFault::Point(PointSite::A, decode_g1(j.a)->Err_0))
    } else if decode_g1(j.c) is Err {
        Err(CodecFault::Point(PointSite::C, decode_g1(j.c)->Err_0))
    } else if decode_g2(j.b) is Err {
        Err(CodecFault::Point(PointSite::B, decode_g2(j.b)->Err_0))
    } else if decode_inputs(j.inputs) is Err {
        Err(CodecFault::BadInput(decode_inputs(j.inputs)->Err_0.0, decode_inputs(j.inputs)->Err_0.1))
    } else {
        Ok(
            (
                ProofView {
                    a: decode_g1(j.a)->Ok_0,
                    b: decode_g2(j.b)->Ok_0,
                    c: decode_g1(j.c)->Ok_0,
                },
                decode_inputs(j.inputs)->Ok_0,
            ),
        )
    }
}


// ---------------------------------------------------------------------------
// Encoding and decoding
// ---------------------------------------------------------------------------

/// Whether two texts are equal.
fn same_text(a: &str, b: &str) -> (r: bool)
    ensures
        r == (a@ == b@),
{
    let n = a.unicode_len();
    if n != b.unicode_len() {
        return false;
    }
    let mut i: usize = 0;
    while i < n
        invariant
            i <= n,
            n == a@.len(),
            n == b@.len(),
            forall|k: int| 0 <= k < i ==> a@[k] == b@[k],
        decreases n - i,
    {
        if a.get_char(i) != b.get_char(i) {
            return false;
        }
        i = i + 1;
    }
    assert(a@ =~= b@);
    true
}

/// The JSON texts `[x, y, "1"]` of a G1 point.
pub fn g1_point_to_strings(point: &G1Point) -> (r: [String; 3])
    ensures
        g1_texts_of(r) == encode_g1(point@),
{
    let r = [
        field_int_to_decimal(&point.x),
        field_int_to_decimal(&point.y),
        String::from_str("1"),
    ];
    assert(g1_texts_of(r) =~= encode_g1(point@));
    r
}

/// The JSON texts `[[x.c0, x.c1], [y.c0, y.c1], ["1", "0"]]` of a G2 point.
pub fn g2_point_to_strings(point: &G2Point) -> (r: [[String; 2]; 3])
    ensures
        g2_texts_of(r) == encode_g2(point@),
{
    let x = [field_int_to_decimal(&point.x.c0), field_int_to_decimal(&point.x.c1)];
    let y = [field_int_to_decimal(&point.y.c0), field_int_to_decimal(&point.y.c1)];
    let z = [String::from_str("1"), String::from_str("0")];
    let r = [x, y, z];
    assert(texts(x@) =~= encode_g2(point@)[0]);
    assert(texts(y@) =~= encode_g2(point@)[1]);
    assert(texts(z@) =~= encode_g2(point@)[2]);
    assert(g2_texts_of(r) =~= encode_g2(point@));
    r
}

/// Reads a G1 point from the texts of its coordinates. The third text must be
/// `"1"`, the sentinel of the affine form; the others must be reduced base-field
/// elements in decimal, and the point must lie on the curve.
pub fn parse_g1_point_from_strings(x_str: &str, y_str: &str, z_str: &str) -> (r: Result<
    G1Point,
    PointError,
>)
    ensures
        match decode_g1(seq![x_str@, y_str@, z_str@]) {
            Ok(v) => r matches Ok(p) && p@ == v,
            Err(f) => r matches Err(e) && e@ == f,
        },
{
    if !same_text(z_str, "1") {
        return Err(PointError::NotAffineG1(String::from_str(z_str)));
    }
    let q = FieldInt::base_modulus();
    let x = match parse_bounded(x_str, &q) {
        Some(v) => v,
        None => {
            return Err(PointError::BadCoordinate(Coordinate::X, String::from_str(x_str)));
        },
    };
    let y = match parse_bounded(y_str, &q) {
        Some(v) => v,
        None => {
            return Err(PointError::BadCoordinate(Coordinate::Y, String::from_str(y_str)));
        },
    };
    if !g1_on_curve(&x, &y) {
        return Err(PointError::NotOnCurve);
    }
    Ok(G1Point { x, y })
}

/// Reads a G2 point from its three pairs of texts. The third pair must be
/// `["1", "0"]`; the others must be reduced base-field elements in decimal, and
/// the point must lie in G2.
pub fn parse_g2_point_from_coords(coords: &[[String; 2]; 3]) -> (r: Result<G2Point, PointError>)
    ensures
        match decode_g2(g2_texts_of(*coords)) {
            Ok(v) => r matches Ok(p) && p@ == v,
            Err(f) => r matches Err(e) && e@ == f,
        },
{
    let ghost t = g2_texts_of(*coords);
    assert(t[0][0] == coords[0][0]@ && t[0][1] == coords[0][1]@);
    assert(t[1][0] == coords[1][0]@ && t[1][1] == coords[1][1]@);
    assert(t[2][0] == coords[2][0]@ && t[2][1] == coords[2][1]@);
    if !same_text(coords[2][0].as_str(), "1") || !same_text(coords[2][1].as_str(), "0") {
        return Err(PointError::NotAffineG2(coords[2][0].clone(), coords[2][1].clone()));
    }
    let q = FieldInt::base_modulus();
    let x_c0 = match parse_bounded(coords[0][0].as_str(), &q) {
        Some(v) => v,
        None => {
            return Err(PointError::BadCoordinate(Coordinate::XC0, coords[0][0].clone()));
        },
    };
    let x_c1 = match parse_bounded(coords[0][1].as_str(), &q) {
        Some(v) => v,
        None => {
            return Err(PointError::BadCoordinate(Coordinate::XC1, coords[0][1].clone()));
        },
    };
    let y_c0 = match parse_bounded(coords[1][0].as_str(), &q) {
        Some(v) => v,
        None => {
            return Err(PointError::BadCoordinate(Coordinate::YC0, coords[1][0].clone()));
        },
    };
    let y_c1 = match parse_bounded(coords[1][1].as_str(), &q) {
        Some(v) => v,
        None => {
            return Err(PointError::BadCoordinate(Coordinate::YC1, coords[1][1].clone()));
        },
    };
    let x = Fq2Int { c0: x_c0, c1: x_c1 };
    let y = Fq2Int { c0: y_c0, c1: y_c1 };
    if !g2_on_curve(&x, &y) {
        return Err(PointError::NotOnCurve);
    }
    Ok(G2Point { x, y })
}

/// Reads a public input: a reduced scalar-field element in decimal.
pub fn parse_field_element(s: &str) -> (r: Option<FieldInt>)
    ensures
        r is Some <==> decimal_value(s@, scalar_modulus()) is Some,
        r matches Some(v) ==> Some(v@) == decimal_value(s@, scalar_modulus()),
{
    parse_bounded(s, &FieldInt::scalar_modulus())
}


proof fn lemma_ic_error_stays(ic: Seq<G1Texts>, i: int)
    requires
        0 <= i <= ic.len(),
        decode_ic(ic.subrange(0, i)) is Err,
    ensures
        decode_ic(ic) == decode_ic(ic.subrange(0, i)),
    decreases ic.len() - i,
{
    if i < ic.len() {
        assert(ic.subrange(0, i + 1).subrange(0, i) =~= ic.subrange(0, i));
        lemma_ic_error_stays(ic, i + 1);
    } else {
        assert(ic.subrange(0, i) =~= ic);
    }
}

proof fn lemma_inputs_error_stays(ts: Seq<Text>, i: int)
    requires
        0 <= i <= ts.len(),
        decode_inputs(ts.subrange(0, i)) is Err,
    ensures
        decode_inputs(ts) == decode_inputs(ts.subrange(0, i)),
    decreases ts.len() - i,
{
    if i < ts.len() {
        assert(ts.subrange(0, i + 1).subrange(0, i) =~= ts.subrange(0, i));
        lemma_inputs_error_stays(ts, i + 1);
    } else {
        assert(ts.subrange(0, i) =~= ts);
    }
}

impl VerifyingKeyJson {
    /// The JSON layout of a verifying key.
    pub fn from_key(vk: &VerifyingKey) -> (r: VerifyingKeyJson)
        requires
            vk.gamma_abc_g1@.len() >= 1,
        ensures
            r@ == encode_key(vk@),
    {
        let mut ic: Vec<[String; 3]> = Vec::new();
        let mut i: usize = 0;
        while i < vk.gamma_abc_g1.len()
            invariant
                i <= vk.gamma_abc_g1@.len(),
                ic@.map_values(|p: [String; 3]| g1_texts_of(p)) =~= g1_views(
                    vk.gamma_abc_g1@.subrange(0, i as int),
                ).map_values(|p: G1View| encode_g1(p)),
            decreases vk.gamma_abc_g1@.len() - i,
        {
            let ghost prev = ic@;
            let t = g1_point_to_strings(&vk.gamma_abc_g1[i]);
            ic.push(t);
            assert(ic@.map_values(|p: [String; 3]| g1_texts_of(p)) =~= prev.map_values(
                |p: [String; 3]| g1_texts_of(p),
            ).push(g1_texts_of(t)));
            assert(vk.gamma_abc_g1@.subrange(0, i + 1) =~= vk.gamma_abc_g1@.subrange(
                0,
                i as int,
            ).push(vk.gamma_abc_g1@[i as int]));
            i = i + 1;
        }
        assert(vk.gamma_abc_g1@.subrange(0, i as int) =~= vk.gamma_abc_g1@);
        let r = VerifyingKeyJson {
            protocol: String::from_str("groth16"),
            curve: String::from_str("bn128"),
            n_public: vk.gamma_abc_g1.len() - 1,
            vk_alpha_1: g1_point_to_strings(&vk.alpha_g1),
            vk_beta_2: g2_point_to_strings(&vk.beta_g2),
            vk_gamma_2: g2_point_to_strings(&vk.gamma_g2),
            vk_delta_2: g2_point_to_strings(&vk.delta_g2),
            ic,
        };
        r
    }
}

impl VerifyingKey {
    /// Reads a verifying key from its JSON layout: the tags must be `groth16`
    /// and `bn128`, every point affine with reduced coordinates; the first
    /// violation, in the order of the layout, gives the error.
    pub fn try_from_json(json: &VerifyingKeyJson) -> (r: Result<VerifyingKey, CodecError>)
        ensures
            match decode_key(json@) {
                Ok(k) => r matches Ok(v) && v@ == k,
                Err(f) => r matches Err(e) && e@ == f,
            },
    {
        let ghost j = json@;
        if !same_text(json.protocol.as_str(), "groth16") {
            return Err(CodecError::Protocol(json.protocol.clone()));
        }
        if !same_text(json.curve.as_str(), "bn128") {
            return Err(CodecError::Curve(json.curve.clone()));
        }
        assert(j.alpha == seq![json.vk_alpha_1[0]@, json.vk_alpha_1[1]@, json.vk_alpha_1[2]@]);
        let alpha_g1 = match parse_g1_point_from_strings(
            json.vk_alpha_1[0].as_str(),
            json.vk_alpha_1[1].as_str(),
            json.vk_alpha_1[2].as_str(),
        ) {
            Ok(p) => p,
            Err(e) => {
                return Err(CodecError::Point(PointSite::Alpha, e));
            },
        };
        let beta_g2 = match parse_g2_point_from_coords(&json.vk_beta_2) {
            Ok(p) => p,
            Err(e) => {
                return Err(CodecError::Point(PointSite::Beta, e));
            },
        };
        let gamma_g2 = match parse_g2_point_from_coords(&json.vk_gamma_2) {
            Ok(p) => p,
            Err(e) => {
                return Err(CodecError::Point(PointSite::Gamma, e));
            },
        };
        let delta_g2 = match parse_g2_point_from_coords(&json.vk_delta_2) {
            Ok(p) => p,
            Err(e) => {
                return Err(CodecError::Point(PointSite::Delta, e));
            },
        };
        let mut gamma_abc_g1: Vec<G1Point> = Vec::new();
        let mut i: usize = 0;
        assert(j.ic.subrange(0, 0) =~= Seq::<G1Texts>::empty());
        assert(g1_views(gamma_abc_g1@) =~= Seq::<G1View>::empty());
        while i < json.ic.len()
            invariant
                i <= json.ic@.len(),
                j == json@,
                j.ic.len() == json.ic@.len(),
                j.protocol == groth16_tag(),
                j.curve == bn128_tag(),
                decode_g1(j.alpha) == Ok::<G1View, PointFault>(alpha_g1@),
                decode_g2(j.beta) == Ok::<G2View, PointFault>(beta_g2@),
                decode_g2(j.gamma) == Ok::<G2View, PointFault>(gamma_g2@),
                decode_g2(j.delta) == Ok::<G2View, PointFault>(delta_g2@),
                decode_ic(j.ic.subrange(0, i as int)) == Ok::<Seq<G1View>, (nat, PointFault)>(
                    g1_views(gamma_abc_g1@),
                ),
            decreases json.ic@.len() - i,
        {
            let coords = &json.ic[i];
            assert(j.ic[i as int] == seq![coords[0]@, coords[1]@, coords[2]@]);
            assert(j.ic.subrange(0, i + 1).subrange(0, i as int) =~= j.ic.subrange(0, i as int));
            assert(j.ic.subrange(0, i + 1)[i as int] == j.ic[i as int]);
            match parse_g1_point_from_strings(
                coords[0].as_str(),
                coords[1].as_str(),
                coords[2].as_str(),
            ) {
                Ok(p) => {
                    let ghost prev = gamma_abc_g1@;
                    gamma_abc_g1.push(p);
                    assert(g1_views(gamma_abc_g1@) =~= g1_views(prev).push(p@));
                },
                Err(e) => {
                    proof {
                        let pre = j.ic.subrange(0, i + 1);
                        assert(pre.len() - 1 == i);
                        assert(decode_ic(pre) == Err::<Seq<G1View>, (nat, PointFault)>(
                            (i as nat, e@),
                        ));
                        lemma_ic_error_stays(j.ic, i + 1);
                    }
                    return Err(CodecError::Point(PointSite::Ic(i), e));
                },
            }
            i = i + 1;
        }
        assert(j.ic.subrange(0, i as int) =~= j.ic);
        Ok(VerifyingKey { alpha_g1, beta_g2, gamma_g2, delta_g2, gamma_abc_g1 })
    }
}

impl ProofJson {
    /// The JSON layout of a proof and its public inputs.
    pub fn from_proof(proof: &Proof, public_inputs: &Vec<FieldInt>) -> (r: ProofJson)
        ensures
            r@ == encode_proof(proof@, int_views(public_inputs@)),
    {
        let mut inputs: Vec<String> = Vec::new();
        let mut i: usize = 0;
        while i < public_inputs.len()
            invariant
                i <= public_inputs@.len(),
                texts(inputs@) =~= int_views(public_inputs@.subrange(0, i as int)).map_values(
                    |v: nat| decimal(v),
                ),
            decreases public_inputs@.len() - i,
        {
            let ghost prev = inputs@;
            let t = field_int_to_decimal(&public_inputs[i]);
            inputs.push(t);
            assert(texts(inputs@) =~= texts(prev).push(t@));
            assert(public_inputs@.subrange(0, i + 1) =~= public_inputs@.subrange(
                0,
                i as int,
            ).push(public_inputs@[i as int]));
            i = i + 1;
        }
        assert(public_inputs@.subrange(0, i as int) =~= public_inputs@);
        ProofJson {
            protocol: String::from_str("groth16"),
            proof_type: String::from_str("proof"),
            curve: String::from_str("bn128"),
            a: g1_point_to_strings(&proof.a),
            b: g2_point_to_strings(&proof.b),
            c: g1_point_to_strings(&proof.c),
            inputs,
        }
    }

    /// Reads a proof and its public inputs from the JSON layout: the tags must
    /// be `groth16`, `bn128` and `proof`, every point affine with reduced
    /// coordinates, every input a reduced scalar; the first violation, in the
    /// order tags, `a`, `c`, `b`, inputs, gives the error.
    pub fn try_into_proof(&self) -> (r: Result<(Proof, Vec<FieldInt>), CodecError>)
        ensures
            match decode_proof(self@) {
                Ok((p, v)) => r matches Ok((q, w)) && q@ == p && int_views(w@) == v,
                Err(f) => r matches Err(e) && e@ == f,
            },
    {
        let ghost j = self@;
        if !same_text(self.protocol.as_str(), "groth16") {
            return Err(CodecError::Protocol(self.protocol.clone()));
        }
        if !same_text(self.curve.as_str(), "bn128") {
            return Err(CodecError::Curve(self.curve.clone()));
        }
        if !same_text(self.proof_type.as_str(), "proof") {
            return Err(CodecError::ProofType(self.proof_type.clone()));
        }
        assert(j.a == seq![self.a[0]@, self.a[1]@, self.a[2]@]);
        assert(j.c == seq![self.c[0]@, self.c[1]@, self.c[2]@]);
        let a = match parse_g1_point_from_strings(
            self.a[0].as_str(),
            self.a[1].as_str(),
            self.a[2].as_str(),
        ) {
            Ok(p) => p,
            Err(e) => {
                return Err(CodecError::Point(PointSite::A, e));
            },
        };
        let c = match parse_g1_point_from_strings(
            self.c[0].as_str(),
            self.c[1].as_str(),
            self.c[2].as_str(),
        ) {
            Ok(p) => p,
            Err(e) => {
                return Err(CodecError::Point(PointSite::C, e));
            },
        };
        let b = match parse_g2_point_from_coords(&self.b) {
            Ok(p) => p,
            Err(e) => {
                return Err(CodecError::Point(PointSite::B, e));
            },
        };
        let mut public_inputs: Vec<FieldInt> = Vec::new();
        let mut i: usize = 0;
        assert(j.inputs.subrange(0, 0) =~= Seq::<Text>::empty());
        assert(int_views(public_inputs@) =~= Seq::<nat>::empty());
        while i < self.inputs.len()
            invariant
                i <= self.inputs@.len(),
                j == self@,
                j.inputs.len() == self.inputs@.len(),
                j.protocol == groth16_tag(),
                j.curve == bn128_tag(),
                j.proof_type == proof_tag(),
                decode_g1(j.a) == Ok::<G1View, PointFault>(a@),
                decode_g1(j.c) == Ok::<G1View, PointFault>(c@),
                decode_g2(j.b) == Ok::<G2View, PointFault>(b@),
                decode_inputs(j.inputs.subrange(0, i as int)) == Ok::<Seq<nat>, (nat, Text)>(
                    int_views(public_inputs@),
                ),
            decreases self.inputs@.len() - i,
        {
            assert(j.inputs[i as int] == self.inputs[i as int]@);
            assert(j.inputs.subrange(0, i + 1).subrange(0, i as int) =~= j.inputs.subrange(
                0,
                i as int,
            ));
            assert(j.inputs.subrange(0, i + 1)[i as int] == j.inputs[i as int]);
            match parse_field_element(self.inputs[i].as_str()) {
                Some(v) => {
                    let ghost prev = public_inputs@;
                    public_inputs.push(v);
                    assert(int_views(public_inputs@) =~= int_views(prev).push(v@));
                },
                None => {
                    proof {
                        let pre = j.inputs.subrange(0, i + 1);
                        assert(pre.len() - 1 == i);
                        assert(decode_inputs(pre) == Err::<Seq<nat>, (nat, Text)>(
                            (i as nat, self.inputs[i as int]@),
                        ));
                        lemma_inputs_error_stays(j.inputs, i + 1);
                    }
                    return Err(CodecError::BadInput(i, self.inputs[i].clone()));
                },
            }
            i = i + 1;
        }
        assert(j.inputs.subrange(0, i as int) =~= j.inputs);
        Ok((Proof { a, b, c }, public_inputs))
    }
}


// ---------------------------------------------------------------------------
// Laws
// ---------------------------------------------------------------------------

proof fn lemma_g1_round_trip(p: G1View)
    requires
        g1_valid(p),
    ensures
        decode_g1(encode_g1(p)) == Ok::<G1View, PointFault>(p),
{
    lemma_decimal_reads_back(p.0, base_modulus());
    lemma_decimal_reads_back(p.1, base_modulus());
}

proof fn lemma_g2_round_trip(p: G2View)
    requires
        g2_valid(p),
    ensures
        decode_g2(encode_g2(p)) == Ok::<G2View, PointFault>(p),
{
    lemma_decimal_reads_back(p.0.0, base_modulus());
    lemma_decimal_reads_back(p.0.1, base_modulus());
    lemma_decimal_reads_back(p.1.0, base_modulus());
    lemma_decimal_reads_back(p.1.1, base_modulus());
}

proof fn lemma_ic_round_trip(ic: Seq<G1View>)
    requires
        forall|i: int| 0 <= i < ic.len() ==> g1_valid(#[trigger] ic[i]),
    ensures
        decode_ic(ic.map_values(|p: G1View| encode_g1(p))) == Ok::<Seq<G1View>, (nat, PointFault)>(
            ic,
        ),
    decreases ic.len(),
{
    if ic.len() > 0 {
        let pre = ic.subrange(0, ic.len() - 1);
        lemma_ic_round_trip(pre);
        let t = ic.map_values(|p: G1View| encode_g1(p));
        assert(t.subrange(0, t.len() - 1) =~= pre.map_values(|p: G1View| encode_g1(p)));
        lemma_g1_round_trip(ic[ic.len() - 1]);
        assert(pre.push(ic[ic.len() - 1]) =~= ic);
    } else {
        assert(ic.map_values(|p: G1View| encode_g1(p)) =~= Seq::<G1Texts>::empty());
        assert(ic =~= Seq::<G1View>::empty());
    }
}

proof fn lemma_inputs_round_trip(v: Seq<nat>)
    requires
        inputs_valid(v),
    ensures
        decode_inputs(v.map_values(|x: nat| decimal(x))) == Ok::<Seq<nat>, (nat, Text)>(v),
    decreases v.len(),
{
    if v.len() > 0 {
        let pre = v.subrange(0, v.len() - 1);
        lemma_inputs_round_trip(pre);
        let t = v.map_values(|x: nat| decimal(x));
        assert(t.subrange(0, t.len() - 1) =~= pre.map_values(|x: nat| decimal(x)));
        lemma_decimal_reads_back(v[v.len() - 1], scalar_modulus());
        assert(pre.push(v[v.len() - 1]) =~= v);
    } else {
        assert(v.map_values(|x: nat| decimal(x)) =~= Seq::<Text>::empty());
        assert(v =~= Seq::<nat>::empty());
    }
}

/// Reading back the JSON layout of a verifying key whose coordinates are
/// reduced gives the same key.
pub proof fn lemma_verifying_key_json_round_trip(k: KeyView)
    requires
        key_valid(k),
    ensures
        decode_key(encode_key(k)) == Ok::<KeyView, CodecFault>(k),
{
    lemma_g1_round_trip(k.alpha);
    lemma_g2_round_trip(k.beta);
    lemma_g2_round_trip(k.gamma);
    lemma_g2_round_trip(k.delta);
    lemma_ic_round_trip(k.ic);
}

/// Reading back the JSON layout of a proof with reduced coordinates and
/// reduced public inputs gives the same proof and inputs.
pub proof fn lemma_proof_json_round_trip(p: ProofView, inputs: Seq<nat>)
    requires
        proof_valid(p),
        inputs_valid(inputs),
    ensures
        decode_proof(encode_proof(p, inputs)) == Ok::<(ProofView, Seq<nat>), CodecFault>(
            (p, inputs),
        ),
{
    lemma_g1_round_trip(p.a);
    lemma_g2_round_trip(p.b);
    lemma_g1_round_trip(p.c);
    lemma_inputs_round_trip(inputs);
}

/// A point whose sentinel is not the affine one is refused, whatever its
/// coordinates: a G1 point needs `"1"` last, a G2 point `["1", "0"]`; and a
/// proof or key holding such a point is refused too.
pub proof fn lemma_non_affine_points_refused(g1: G1Texts, g2: G2Texts, j: ProofJsonView, k: KeyJsonView)
    ensures
        g1[2] != one_text() ==> decode_g1(g1) is Err,
        (g2[2][0] != one_text() || g2[2][1] != zero_text()) ==> decode_g2(g2) is Err,
        decode_g1(j.a) is Err || decode_g2(j.b) is Err || decode_g1(j.c) is Err
            ==> decode_proof(j) is Err,
        decode_g1(k.alpha) is Err || decode_g2(k.beta) is Err || decode_g2(k.gamma) is Err
            || decode_g2(k.delta) is Err ==> decode_key(k) is Err,
{
}

/// A proof or key whose protocol tag is not `groth16` or whose curve tag is
/// not `bn128` is refused.
pub proof fn lemma_tags_enforced(j: ProofJsonView, k: KeyJsonView)
    ensures
        j.protocol != groth16_tag() || j.curve != bn128_tag() ==> decode_proof(j) is Err,
        k.protocol != groth16_tag() || k.curve != bn128_tag() ==> decode_key(k) is Err,
{
}

/// The `IC` list is refused exactly when one of its points is, and the
/// refusal names the first such point.
proof fn lemma_ic_refusal(ic: Seq<G1Texts>)
    ensures
        decode_ic(ic) is Err <==> exists|i: int| 0 <= i < ic.len() && decode_g1(#[trigger] ic[i]) is Err,
        decode_ic(ic) matches Err((i, f)) ==> i < ic.len() && decode_g1(ic[i as int]) == Err::<
            G1View,
            PointFault,
        >(f),
    decreases ic.len(),
{
    if ic.len() > 0 {
        let pre = ic.subrange(0, ic.len() - 1);
        lemma_ic_refusal(pre);
        if decode_ic(pre) is Err {
            let i = choose|i: int| 0 <= i < pre.len() && decode_g1(#[trigger] pre[i]) is Err;
            assert(ic[i] == pre[i]);
            let j = decode_ic(pre)->Err_0.0;
            assert(ic[j as int] == pre[j as int]);
        } else {
            if exists|i: int| 0 <= i < ic.len() && decode_g1(#[trigger] ic[i]) is Err {
                let i = choose|i: int| 0 <= i < ic.len() && decode_g1(#[trigger] ic[i]) is Err;
                if i < ic.len() - 1 {
                    assert(pre[i] == ic[i]);
                }
            }
        }
    }
}

/// A key whose `IC` list holds a refused point, for example one whose last
/// text is not `"1"`, is refused; when the refusal is about the `IC` list, it
/// names an index whose point is refused, with that point's reason.
pub proof fn lemma_key_ic_points_checked(k: KeyJsonView, i: int)
    requires
        0 <= i < k.ic.len(),
        k.ic.len() <= usize::MAX,
        decode_g1(k.ic[i]) is Err,
    ensures
        decode_key(k) is Err,
        decode_key(k) matches Err(CodecFault::Point(PointSite::Ic(j), f)) ==> j < k.ic.len()
            && decode_g1(k.ic[j as int]) == Err::<G1View, PointFault>(f),
{
    lemma_ic_refusal(k.ic);
}

} // verus!
