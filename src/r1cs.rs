//! The binary R1CS container: a magic word, a version, and typed sections
//! holding the header, the constraints and the map from wires to labels.
use crate::circuit::{Constraint, LinearTerms, R1CS};
use crate::field::{limbs_value, FieldInt};
use vstd::prelude::*;

verus! {

broadcast use vstd::seq::group_seq_axioms;

/// Why an R1CS container was refused.
#[derive(Clone, Copy, Debug, PartialEq, Eq, Structural)]
pub enum R1csError {
    /// The data does not start with the magic word `r1cs`.
    BadMagic,
    /// A record, section or value reaches past the end of the data.
    Truncated,
    /// No section of this type is present (header or constraints).
    MissingSection(u32),
    /// Field elements are not 32 bytes wide.
    FieldSize(u32),
    /// The header declares fewer wires than public inputs, or a value does
    /// not fit the machine's word.
    Inconsistent,
}

/// The little-endian `u32` at `p`.
pub open spec fn u32_at(b: Seq<u8>, p: int) -> nat {
    (b[p] + b[p + 1] * 256 + b[p + 2] * 65536 + b[p + 3] * 16777216) as nat
}

/// The little-endian `u64` at `p`.
pub open spec fn u64_at(b: Seq<u8>, p: int) -> nat {
    u32_at(b, p) + u32_at(b, p + 4) * 4294967296
}

/// The little-endian 256-bit integer at `p`.
pub open spec fn u256_at(b: Seq<u8>, p: int) -> nat {
    limbs_value(u64_at(b, p), u64_at(b, p + 8), u64_at(b, p + 16), u64_at(b, p + 24))
}

/// `n` bytes from `p` lie inside the data.
pub open spec fn fits(b: Seq<u8>, p: int, n: int) -> bool {
    0 <= p && 0 <= n && p + n <= b.len()
}

/// Walks `count` section records from `p` (a `u32` type, a `u64` size, then
/// the data) and gives where the data of the first section of `kind` starts.
/// Every record must lie inside the data.
pub open spec fn find_section(b: Seq<u8>, p: int, count: nat, kind: nat) -> Result<Option<int>, R1csError>
    decreases count,
{
    if count == 0 {
        Ok(None)
    } else if !fits(b, p, 12) || !fits(b, p + 12, u64_at(b, p + 4) as int) {
        Err(R1csError::Truncated)
    } else {
        match find_section(b, p + 12 + u64_at(b, p + 4), (count - 1) as nat, kind) {
            Err(e) => Err(e),
            Ok(later) => if u32_at(b, p) == kind {
                Ok(Some(p + 12))
            } else {
                Ok(later)
            },
        }
    }
}

/// A term: a wire index and a coefficient.
pub type TermView = (nat, nat);

/// A constraint as its three lists of terms.
pub type ConstraintView = (Seq<TermView>, Seq<TermView>, Seq<TermView>);

/// A linear combination at `p`: a `u32` count, then per term a `u32` wire and
/// a 32-byte coefficient. Gives the terms and where the next value starts.
pub open spec fn terms_at(b: Seq<u8>, p: int) -> Result<(Seq<TermView>, int), R1csError> {
    if !fits(b, p, 4) || !fits(b, p + 4, (u32_at(b, p) * 36) as int) {
        Err(R1csError::Truncated)
    } else {
        Ok(
            (
                Seq::new(
                    u32_at(b, p),
                    |k: int| (u32_at(b, p + 4 + k * 36), u256_at(b, p + 8 + k * 36)),
                ),
                p + 4 + u32_at(b, p) * 36,
            ),
        )
    }
}

/// A constraint at `p`: the linear combinations A, B and C in a row.
pub open spec fn constraint_at(b: Seq<u8>, p: int) -> Result<(ConstraintView, int), R1csError> {
    match terms_at(b, p) {
        Err(e) => Err(e),
        Ok((ta, pa)) => match terms_at(b, pa) {
            Err(e) => Err(e),
            Ok((tb, pb)) => match terms_at(b, pb) {
                Err(e) => Err(e),
                Ok((tc, pc)) => Ok(((ta, tb, tc), pc)),
            },
        },
    }
}

/// `m` constraints in a row from `p`.
pub open spec fn constraints_at(b: Seq<u8>, p: int, m: nat) -> Result<(Seq<ConstraintView>, int), R1csError>
    decreases m,
{
    if m == 0 {
        Ok((Seq::empty(), p))
    } else {
        match constraint_at(b, p) {
            Err(e) => Err(e),
            Ok((c, q)) => match constraints_at(b, q, (m - 1) as nat) {
                Err(e) => Err(e),
                Ok((rest, e)) => Ok((seq![c] + rest, e)),
            },
        }
    }
}

/// The content of an `R1CS<FieldInt>`.
pub struct R1csView {
    pub num_inputs: nat,
    pub num_aux: nat,
    pub constraints: Seq<ConstraintView>,
    pub wire_mapping: Option<Seq<nat>>,
}

pub open spec fn terms_view(v: LinearTerms<FieldInt>) -> Seq<TermView> {
    v@.map_values(|t: (usize, FieldInt)| (t.0 as nat, t.1@))
}

pub open spec fn constraint_view(c: Constraint<FieldInt>) -> ConstraintView {
    (terms_view(c.0), terms_view(c.1), terms_view(c.2))
}

pub open spec fn r1cs_view(r: R1CS<FieldInt>) -> R1csView {
    R1csView {
        num_inputs: r.num_inputs as nat,
        num_aux: r.num_aux as nat,
        constraints: r.constraints@.map_values(|c: Constraint<FieldInt>| constraint_view(c)),
        wire_mapping: match r.wire_mapping {
            Some(m) => Some(m@.map_values(|w: usize| w as nat)),
            None => None,
        },
    }
}

/// The magic word `r1cs`.
pub open spec fn has_magic(b: Seq<u8>) -> bool {
    b[0] == 0x72u8 && b[1] == 0x31u8 && b[2] == 0x63u8 && b[3] == 0x73u8
}

/// The map from wires to labels: `n` `u64` values from `p`.
pub open spec fn mapping_at(b: Seq<u8>, p: int, n: nat) -> Seq<nat> {
    Seq::new(n, |k: int| u64_at(b, p + 8 * k))
}

/// The description held by an R1CS container.
///
/// The header (section 1) gives the field width, which must be 32 bytes, the
/// prime, the numbers of wires, public outputs, public inputs and private
/// inputs, the number of labels and the number of constraints. Wires below
/// `1 + outputs + inputs` are public. The constraints come from section 2; the
/// wire map, when there is one, from section 3.
pub open spec fn parse_r1cs(b: Seq<u8>) -> Result<R1csView, R1csError> {
    if !fits(b, 0, 12) {
        Err(R1csError::Truncated)
    } else if !has_magic(b) {
        Err(R1csError::BadMagic)
    } else {
        let count = u32_at(b, 8);
        match (
            find_section(b, 12, count, 1),
            find_section(b, 12, count, 2),
            find_section(b, 12, count, 3),
        ) {
            (Err(e), _, _) => Err(e),
            (Ok(None), _, _) => Err(R1csError::MissingSection(1)),
            (Ok(Some(h)), Ok(sc), Ok(sw)) => {
                if !fits(b, h, 64) {
                    Err(R1csError::Truncated)
                } else if u32_at(b, h) != 32 {
                    Err(R1csError::FieldSize(u32_at(b, h) as u32))
                } else {
                    let n_wires = u32_at(b, h + 36);
                    let num_inputs = 1 + u32_at(b, h + 40) + u32_at(b, h + 44);
                    let m = u32_at(b, h + 60);
                    if n_wires < num_inputs {
                        Err(R1csError::Inconsistent)
                    } else {
                        match sc {
                            None => Err(R1csError::MissingSection(2)),
                            Some(c) => match constraints_at(b, c, m) {
                                Err(e) => Err(e),
                                Ok((cs, _)) => match sw {
                                    None => Ok(
                                        R1csView {
                                            num_inputs,
                                            num_aux: (n_wires - num_inputs) as nat,
                                            constraints: cs,
                                            wire_mapping: None,
                                        },
                                    ),
                                    Some(w) => if !fits(b, w, (8 * n_wires) as int) {
                                        Err(R1csError::Truncated)
                                    } else if exists|k: int|
                                        0 <= k < n_wires && #[trigger] u64_at(b, w + 8 * k)
                                            > usize::MAX {
                                        Err(R1csError::Inconsistent)
                                    } else {
                                        Ok(
                                            R1csView {
                                                num_inputs,
                                                num_aux: (n_wires - num_inputs) as nat,
                                                constraints: cs,
                                                wire_mapping: Some(mapping_at(b, w, n_wires)),
                                            },
                                        )
                                    },
                                },
                            },
                        }
                    }
                }
            },
            (_, Err(e), _) => Err(e),
            (_, _, Err(e)) => Err(e),
        }
    }
}

fn read_u32(b: &[u8], p: usize) -> (r: u32)
    requires
        fits(b@, p as int, 4),
    ensures
        r as nat == u32_at(b@, p as int),
{
    b[p] as u32 + (b[p + 1] as u32) * 256 + (b[p + 2] as u32) * 65536 + (b[p + 3] as u32)
        * 16777216
}

fn read_u64(b: &[u8], p: usize) -> (r: u64)
    requires
        fits(b@, p as int, 8),
    ensures
        r as nat == u64_at(b@, p as int),
{
    let n = b.len();
    let lo = read_u32(b, p);
    let hi = read_u32(b, p + 4);
    lo as u64 + (hi as u64) * 4294967296
}

fn read_u256(b: &[u8], p: usize) -> (r: FieldInt)
    requires
        fits(b@, p as int, 32),
    ensures
        r@ == u256_at(b@, p as int),
{
    let n = b.len();
    let r = FieldInt {
        limbs: [read_u64(b, p), read_u64(b, p + 8), read_u64(b, p + 16), read_u64(b, p + 24)],
    };
    assert(r.limbs@[0] as nat == u64_at(b@, p as int));
    assert(r.limbs@[1] as nat == u64_at(b@, p + 8));
    assert(r.limbs@[2] as nat == u64_at(b@, p + 16));
    assert(r.limbs@[3] as nat == u64_at(b@, p + 24));
    r
}


/// Reads a linear combination at `p`.
fn read_terms(b: &[u8], p: usize) -> (r: Result<(LinearTerms<FieldInt>, usize), R1csError>)
    ensures
        match terms_at(b@, p as int) {
            Ok((t, q)) => r matches Ok((v, e)) && terms_view(v) == t && e == q,
            Err(f) => r == Err::<(LinearTerms<FieldInt>, usize), R1csError>(f),
        },
{
    let n = b.len();
    if p > n || n - p < 4 {
        return Err(R1csError::Truncated);
    }
    let count = read_u32(b, p);
    if (count as u64) * 36 > (n - p - 4) as u64 {
        return Err(R1csError::Truncated);
    }
    let ghost t = terms_at(b@, p as int)->Ok_0.0;
    let mut out: LinearTerms<FieldInt> = Vec::new();
    let mut k: usize = 0;
    while k < count as usize
        invariant
            n == b@.len(),
            p + 4 + count * 36 <= n,
            count as nat == u32_at(b@, p as int),
            t == terms_at(b@, p as int)->Ok_0.0,
            t.len() == count,
            k <= count,
            out@.len() == k,
            terms_view(out) =~= t.subrange(0, k as int),
        decreases count - k,
    {
        assert(k * 36 + 36 <= count * 36) by (nonlinear_arith)
            requires
                k < count,
        ;
        let q = p + 4 + k * 36;
        let wire = read_u32(b, q);
        let coeff = read_u256(b, q + 4);
        let ghost prev = out@;
        let ghost pv = terms_view(out);
        out.push((wire as usize, coeff));
        assert(t[k as int] == (wire as nat, coeff@));
        assert(terms_view(out) =~= t.subrange(0, k + 1)) by {
            assert forall|i: int| 0 <= i < k + 1 implies #[trigger] terms_view(out)[i] == t[i] by {
                if i < k {
                    assert(out@[i] == prev[i]);
                    assert(pv[i] == (prev[i].0 as nat, prev[i].1@));
                    assert(pv[i] == t[i]);
                }
            }
        }
        k = k + 1;
    }
    assert(t.subrange(0, k as int) =~= t);
    let end = p + 4 + (count as usize) * 36;
    Ok((out, end))
}


/// Reads a constraint at `p`.
fn read_constraint(b: &[u8], p: usize) -> (r: Result<(Constraint<FieldInt>, usize), R1csError>)
    ensures
        match constraint_at(b@, p as int) {
            Ok((c, q)) => r matches Ok((v, e)) && constraint_view(v) == c && e == q,
            Err(f) => r == Err::<(Constraint<FieldInt>, usize), R1csError>(f),
        },
{
    let (a, pa) = match read_terms(b, p) {
        Ok(x) => x,
        Err(e) => {
            return Err(e);
        },
    };
    let (bb, pb) = match read_terms(b, pa) {
        Ok(x) => x,
        Err(e) => {
            return Err(e);
        },
    };
    let (c, pc) = match read_terms(b, pb) {
        Ok(x) => x,
        Err(e) => {
            return Err(e);
        },
    };
    Ok(((a, bb, c), pc))
}

/// `acc` in front of what a later read gives.
pub open spec fn after(acc: Seq<ConstraintView>, rest: Result<(Seq<ConstraintView>, int), R1csError>) -> Result<
    (Seq<ConstraintView>, int),
    R1csError,
> {
    match rest {
        Err(e) => Err(e),
        Ok((cs, q)) => Ok((acc + cs, q)),
    }
}

pub open spec fn constraint_views(v: Seq<Constraint<FieldInt>>) -> Seq<ConstraintView> {
    v.map_values(|c: Constraint<FieldInt>| constraint_view(c))
}

/// Reads `m` constraints from `p`.
fn read_constraints(b: &[u8], p: usize, m: u32) -> (r: Result<(Vec<Constraint<FieldInt>>, usize), R1csError>)
    ensures
        match constraints_at(b@, p as int, m as nat) {
            Ok((cs, q)) => r matches Ok((v, e)) && constraint_views(v@) == cs && e == q,
            Err(f) => r == Err::<(Vec<Constraint<FieldInt>>, usize), R1csError>(f),
        },
{
    let mut out: Vec<Constraint<FieldInt>> = Vec::new();
    let mut pos = p;
    let mut i: u32 = 0;
    assert(constraint_views(out@) =~= Seq::<ConstraintView>::empty());
    assert(after(Seq::empty(), constraints_at(b@, p as int, m as nat)) =~= constraints_at(b@, p as int, m as nat)) by {
        match constraints_at(b@, p as int, m as nat) {
            Ok((cs, q)) => {
                assert(Seq::<ConstraintView>::empty() + cs =~= cs);
            },
            Err(_) => {},
        }
    }
    while i < m
        invariant
            i <= m,
            constraints_at(b@, p as int, m as nat) == after(
                constraint_views(out@),
                constraints_at(b@, pos as int, (m - i) as nat),
            ),
        decreases m - i,
    {
        match read_constraint(b, pos) {
            Err(e) => {
                return Err(e);
            },
            Ok((c, q)) => {
                let ghost before = constraint_views(out@);
                let ghost rest = constraints_at(b@, q as int, (m - i - 1) as nat);
                out.push(c);
                assert(constraint_views(out@) =~= before.push(constraint_view(c)));
                proof {
                    match rest {
                        Ok((cs, e)) => {
                            assert(before + (seq![constraint_view(c)] + cs) =~= before.push(
                                constraint_view(c),
                            ) + cs);
                        },
                        Err(_) => {},
                    }
                }
                pos = q;
                i = i + 1;
            },
        }
    }
    assert(constraint_views(out@) + Seq::<ConstraintView>::empty() =~= constraint_views(out@));
    Ok((out, pos))
}

/// What a section walk gives once `found` was already seen.
pub open spec fn pick(found: Option<usize>, rest: Result<Option<int>, R1csError>) -> Result<
    Option<int>,
    R1csError,
> {
    match rest {
        Err(e) => Err(e),
        Ok(r) => Ok(
            match found {
                Some(f) => Some(f as int),
                None => r,
            },
        ),
    }
}

/// Reads `count` little-endian `u64` wire slots from `w`; `None` when one
/// does not fit the machine's word.
fn read_mapping(b: &[u8], w: usize, count: u32) -> (r: Option<Vec<usize>>)
    requires
        w + count * 8 <= b@.len(),
    ensures
        r is None <==> exists|k: int|
            0 <= k < count && #[trigger] u64_at(b@, w + 8 * k) > usize::MAX,
        r matches Some(m) ==> m@.map_values(|x: usize| x as nat) == mapping_at(
            b@,
            w as int,
            count as nat,
        ),
{
    let n = b.len();
    let ghost target = mapping_at(b@, w as int, count as nat);
    let mut mapping: Vec<usize> = Vec::new();
    let mut k: u32 = 0;
    while k < count
        invariant
            n == b@.len(),
            w + count * 8 <= n,
            k <= count,
            target == mapping_at(b@, w as int, count as nat),
            mapping@.len() == k,
            forall|j: int| 0 <= j < k ==> #[trigger] mapping@[j] as nat == target[j],
        decreases count - k,
    {
        assert(8 * k + 8 <= 8 * count) by (nonlinear_arith)
            requires
                k < count,
        ;
        let v = read_u64(b, w + 8 * (k as usize));
        if v > usize::MAX as u64 {
            assert(u64_at(b@, w + 8 * (k as int)) > usize::MAX);
            return None;
        }
        mapping.push(v as usize);
        k = k + 1;
    }
    assert forall|j: int| 0 <= j < count implies #[trigger] u64_at(b@, w + 8 * j)
        <= usize::MAX by {
        assert(target[j] == u64_at(b@, w + 8 * j));
        assert(mapping@[j] as nat == target[j]);
    }
    assert(mapping@.map_values(|x: usize| x as nat) =~= target);
    Some(mapping)
}

/// Reads the description held by an R1CS container.
pub fn read_r1cs(b: &[u8]) -> (r: Result<R1CS<FieldInt>, R1csError>)
    ensures
        match parse_r1cs(b@) {
            Ok(v) => r matches Ok(x) && r1cs_view(x) == v,
            Err(f) => r == Err::<R1CS<FieldInt>, R1csError>(f),
        },
{
    let n = b.len();
    if n < 12 {
        return Err(R1csError::Truncated);
    }
    if !(b[0] == 0x72u8 && b[1] == 0x31u8 && b[2] == 0x63u8 && b[3] == 0x73u8) {
        return Err(R1csError::BadMagic);
    }
    let count = read_u32(b, 8);
    let mut header: Option<usize> = None;
    let mut cons: Option<usize> = None;
    let mut wires: Option<usize> = None;
    let mut pos: usize = 12;
    let mut i: u32 = 0;
    while i < count
        invariant
            n == b@.len(),
            n >= 12,
            has_magic(b@),
            12 <= pos <= n,
            i <= count,
            count as nat == u32_at(b@, 8),
            header matches Some(h) ==> h <= n,
            cons matches Some(h) ==> h <= n,
            wires matches Some(h) ==> h <= n,
            find_section(b@, 12, count as nat, 1) == pick(
                header,
                find_section(b@, pos as int, (count - i) as nat, 1),
            ),
            find_section(b@, 12, count as nat, 2) == pick(
                cons,
                find_section(b@, pos as int, (count - i) as nat, 2),
            ),
            find_section(b@, 12, count as nat, 3) == pick(
                wires,
                find_section(b@, pos as int, (count - i) as nat, 3),
            ),
        decreases count - i,
    {
        if n - pos < 12 {
            assert(find_section(b@, pos as int, (count - i) as nat, 1) == Err::<Option<int>, R1csError>(R1csError::Truncated));
            return Err(R1csError::Truncated);
        }
        let kind = read_u32(b, pos);
        let size = read_u64(b, pos + 4);
        if size > (n - pos - 12) as u64 {
            assert(find_section(b@, pos as int, (count - i) as nat, 1) == Err::<Option<int>, R1csError>(R1csError::Truncated));
            return Err(R1csError::Truncated);
        }
        if kind == 1 && header.is_none() {
            header = Some(pos + 12);
        }
        if kind == 2 && cons.is_none() {
            cons = Some(pos + 12);
        }
        if kind == 3 && wires.is_none() {
            wires = Some(pos + 12);
        }
        pos = pos + 12 + size as usize;
        i = i + 1;
    }
    let h = match header {
        None => {
            return Err(R1csError::MissingSection(1));
        },
        Some(h) => h,
    };
    if n - h < 64 {
        return Err(R1csError::Truncated);
    }
    let n8 = read_u32(b, h);
    if n8 != 32 {
        return Err(R1csError::FieldSize(n8));
    }
    let n_wires = read_u32(b, h + 36);
    let num_inputs = 1 + read_u32(b, h + 40) as u64 + read_u32(b, h + 44) as u64;
    let m = read_u32(b, h + 60);
    if (n_wires as u64) < num_inputs {
        return Err(R1csError::Inconsistent);
    }
    let c = match cons {
        None => {
            return Err(R1csError::MissingSection(2));
        },
        Some(c) => c,
    };
    let constraints = match read_constraints(b, c, m) {
        Ok((cs, _)) => cs,
        Err(e) => {
            return Err(e);
        },
    };
    let num_aux = (n_wires as u64 - num_inputs) as usize;
    let num_inputs = num_inputs as usize;
    match wires {
        None => Ok(R1CS { num_inputs, num_aux, constraints, wire_mapping: None }),
        Some(w) => {
            if (n_wires as u64) * 8 > (n - w) as u64 {
                return Err(R1csError::Truncated);
            }
            let mapping = match read_mapping(b, w, n_wires) {
                Some(m) => m,
                None => {
                    return Err(R1csError::Inconsistent);
                },
            };
            let r = R1CS { num_inputs, num_aux, constraints, wire_mapping: Some(mapping) };
            assert(r1cs_view(r).wire_mapping->0 =~= mapping_at(b@, w as int, n_wires as nat));
            Ok(r)
        },
    }
}

} // verus!
