//! Unsigned 256-bit integers in the limb form used for curve coordinates and
//! scalars, with their decimal text form.
use std::str::FromStr;
use vstd::prelude::*;

verus! {

/// 2^64, the weight of one limb.
pub open spec fn limb_base() -> nat {
    18446744073709551616
}

/// The integer with the given little-endian 64-bit limbs.
pub open spec fn limbs_value(l0: nat, l1: nat, l2: nat, l3: nat) -> nat {
    l0 + l1 * limb_base() + l2 * (limb_base() * limb_base()) + l3 * (limb_base() * limb_base()
        * limb_base())
}

/// 2^256: every `FieldInt` is below this bound.
pub open spec fn int_bound() -> nat {
    limb_base() * limb_base() * limb_base() * limb_base()
}

/// The prime order of the base field, over which curve coordinates live.
pub open spec fn base_modulus() -> nat {
    limbs_value(4332616871279656263, 10917124144477883021, 13281191951274694749, 3486998266802970665)
}

/// The prime order of the scalar field, over which witness values and public
/// inputs live.
pub open spec fn scalar_modulus() -> nat {
    limbs_value(4891460686036598785, 2896914383306846353, 13281191951274694749, 3486998266802970665)
}

/// An unsigned integer below 2^256, stored as four little-endian 64-bit limbs.
#[derive(Clone, Copy, Debug, PartialEq, Eq)]
pub struct FieldInt {
    pub limbs: [u64; 4],
}

impl View for FieldInt {
    type V = nat;

    open spec fn view(&self) -> nat {
        limbs_value(
            self.limbs@[0] as nat,
            self.limbs@[1] as nat,
            self.limbs@[2] as nat,
            self.limbs@[3] as nat,
        )
    }
}

impl FieldInt {
    /// The integer `n`, for `n` below 2^64.
    pub fn from_u64(n: u64) -> (r: FieldInt)
        ensures
            r@ == n as nat,
    {
        let r = FieldInt { limbs: [n, 0, 0, 0] };
        assert(r.limbs@[0] == n && r.limbs@[1] == 0 && r.limbs@[2] == 0 && r.limbs@[3] == 0);
        r
    }

    /// The base-field modulus in limb form.
    pub fn base_modulus() -> (r: FieldInt)
        ensures
            r@ == base_modulus(),
    {
        FieldInt {
            limbs: [
                4332616871279656263u64,
                10917124144477883021u64,
                13281191951274694749u64,
                3486998266802970665u64,
            ],
        }
    }

    /// The scalar-field modulus in limb form.
    pub fn scalar_modulus() -> (r: FieldInt)
        ensures
            r@ == scalar_modulus(),
    {
        FieldInt {
            limbs: [
                4891460686036598785u64,
                2896914383306846353u64,
                13281191951274694749u64,
                3486998266802970665u64,
            ],
        }
    }

    /// Compares two integers limb by limb, from the most significant limb down.
    pub fn less_than(&self, other: &FieldInt) -> (r: bool)
        ensures
            r == (self@ < other@),
    {
        let a = self.limbs;
        let b = other.limbs;
        proof {
            lemma_limb_weights(
                a[0] as int,
                a[1] as int,
                a[2] as int,
                a[3] as int,
                b[0] as int,
                b[1] as int,
                b[2] as int,
                b[3] as int,
            );
        }
        if a[3] != b[3] {
            a[3] < b[3]
        } else if a[2] != b[2] {
            a[2] < b[2]
        } else if a[1] != b[1] {
            a[1] < b[1]
        } else {
            a[0] < b[0]
        }
    }
}

/// Ordering of limb numbers is decided by the highest limb that differs.
proof fn lemma_limb_weights(a0: int, a1: int, a2: int, a3: int, b0: int, b1: int, b2: int, b3: int)
    requires
        0 <= a0 < limb_base(),
        0 <= a1 < limb_base(),
        0 <= a2 < limb_base(),
        0 <= a3 < limb_base(),
        0 <= b0 < limb_base(),
        0 <= b1 < limb_base(),
        0 <= b2 < limb_base(),
        0 <= b3 < limb_base(),
    ensures
        ({
            let w1 = limb_base() as int;
            let w2 = w1 * w1;
            let w3 = w2 * w1;
            let va = a0 + a1 * w1 + a2 * w2 + a3 * w3;
            let vb = b0 + b1 * w1 + b2 * w2 + b3 * w3;
            &&& a3 != b3 ==> (va < vb <==> a3 < b3)
            &&& a3 == b3 && a2 != b2 ==> (va < vb <==> a2 < b2)
            &&& a3 == b3 && a2 == b2 && a1 != b1 ==> (va < vb <==> a1 < b1)
            &&& a3 == b3 && a2 == b2 && a1 == b1 ==> (va < vb <==> a0 < b0)
        }),
{
    let w1 = limb_base() as int;
    let w2 = w1 * w1;
    let w3 = w2 * w1;
    assert(a3 < b3 ==> a3 * w3 + w3 <= b3 * w3) by (nonlinear_arith)
        requires
            w3 > 0,
    ;
    assert(b3 < a3 ==> b3 * w3 + w3 <= a3 * w3) by (nonlinear_arith)
        requires
            w3 > 0,
    ;
    assert(a2 < b2 ==> a2 * w2 + w2 <= b2 * w2) by (nonlinear_arith)
        requires
            w2 > 0,
    ;
    assert(b2 < a2 ==> b2 * w2 + w2 <= a2 * w2) by (nonlinear_arith)
        requires
            w2 > 0,
    ;
    assert(a1 < b1 ==> a1 * w1 + w1 <= b1 * w1) by (nonlinear_arith)
        requires
            w1 > 0,
    ;
    assert(b1 < a1 ==> b1 * w1 + w1 <= a1 * w1) by (nonlinear_arith)
        requires
            w1 > 0,
    ;
    assert(0 <= a2 * w2 + a1 * w1 + a0 < w3) by (nonlinear_arith)
        requires
            0 <= a0 < w1,
            0 <= a1 < w1,
            0 <= a2 < w1,
            w2 == w1 * w1,
            w3 == w2 * w1,
    ;
    assert(0 <= b2 * w2 + b1 * w1 + b0 < w3) by (nonlinear_arith)
        requires
            0 <= b0 < w1,
            0 <= b1 < w1,
            0 <= b2 < w1,
            w2 == w1 * w1,
            w3 == w2 * w1,
    ;
    assert(0 <= a1 * w1 + a0 < w2) by (nonlinear_arith)
        requires
            0 <= a0 < w1,
            0 <= a1 < w1,
            w2 == w1 * w1,
    ;
    assert(0 <= b1 * w1 + b0 < w2) by (nonlinear_arith)
        requires
            0 <= b0 < w1,
            0 <= b1 < w1,
            w2 == w1 * w1,
    ;
}

// ---------------------------------------------------------------------------
// Decimal text
// ---------------------------------------------------------------------------

/// The numeric value of a decimal digit character.
pub open spec fn digit_value(c: char) -> int {
    c as int - '0' as int
}

/// A decimal digit character.
pub open spec fn is_digit(c: char) -> bool {
    '0' <= c && c <= '9'
}

/// The character of a decimal digit `d < 10`.
pub open spec fn digit_char(d: nat) -> char {
    if d == 0 {
        '0'
    } else if d == 1 {
        '1'
    } else if d == 2 {
        '2'
    } else if d == 3 {
        '3'
    } else if d == 4 {
        '4'
    } else if d == 5 {
        '5'
    } else if d == 6 {
        '6'
    } else if d == 7 {
        '7'
    } else if d == 8 {
        '8'
    } else {
        '9'
    }
}

/// The canonical base-10 text of `n`: no sign, no leading zeros, `"0"` for zero.
pub open spec fn decimal(n: nat) -> Seq<char>
    decreases n,
{
    if n < 10 {
        seq![digit_char(n)]
    } else {
        decimal(n / 10).push(digit_char(n % 10))
    }
}

/// The value of a run of digits in which `_` separators are skipped.
pub open spec fn digits_value(s: Seq<char>) -> nat
    decreases s.len(),
{
    if s.len() == 0 {
        0
    } else if s.last() == '_' {
        digits_value(s.drop_last())
    } else {
        (digits_value(s.drop_last()) * 10 + digit_value(s.last())) as nat
    }
}

/// The text with one leading `+` removed, unless a second `+` follows it.
pub open spec fn sign_stripped(s: Seq<char>) -> Seq<char> {
    if s.len() > 0 && s[0] == '+' && !(s.len() > 1 && s[1] == '+') {
        s.drop_first()
    } else {
        s
    }
}

/// The unsigned integer that a text denotes in the grammar of arbitrary-size
/// decimal integers: an optional `+`, then digits, with `_` allowed anywhere
/// but first. `None` for any other text.
pub open spec fn unsigned_text_value(s: Seq<char>) -> Option<nat> {
    let t = sign_stripped(s);
    if t.len() > 0 && t[0] != '_' && (forall|i: int|
        0 <= i < t.len() ==> is_digit(#[trigger] t[i]) || t[i] == '_') {
        Some(digits_value(t))
    } else {
        None
    }
}

/// The value of the text if it is a decimal integer below `bound`.
pub open spec fn bounded_text_value(s: Seq<char>, bound: nat) -> Option<nat> {
    match unsigned_text_value(s) {
        Some(n) => if n < bound {
            Some(n)
        } else {
            None
        },
        None => None,
    }
}

/// The text is a non-empty run of ASCII decimal digits.
pub open spec fn all_digits(s: Seq<char>) -> bool {
    s.len() > 0 && forall|i: int| 0 <= i < s.len() ==> is_digit(#[trigger] s[i])
}

/// The value of a base-10 unsigned integer text below `bound`: digits only,
/// no sign and no separators. `None` for any other text.
pub open spec fn decimal_value(s: Seq<char>, bound: nat) -> Option<nat> {
    if all_digits(s) && digits_value(s) < bound {
        Some(digits_value(s))
    } else {
        None
    }
}

/// Whether a text is a non-empty run of ASCII decimal digits.
fn all_digits_text(s: &str) -> (r: bool)
    ensures
        r == all_digits(s@),
{
    let n = s.unicode_len();
    if n == 0 {
        return false;
    }
    let mut i: usize = 0;
    while i < n
        invariant
            i <= n,
            n == s@.len(),
            forall|k: int| 0 <= k < i ==> is_digit(#[trigger] s@[k]),
        decreases n - i,
    {
        let c = s.get_char(i);
        if !('0' <= c && c <= '9') {
            return false;
        }
        i = i + 1;
    }
    true
}

proof fn lemma_digit_char(d: nat)
    requires
        d < 10,
    ensures
        is_digit(digit_char(d)),
        digit_value(digit_char(d)) == d,
{
}

/// The canonical decimal text of `n` consists of digits and denotes `n`.
pub proof fn lemma_decimal_digits(n: nat)
    ensures
        decimal(n).len() > 0,
        forall|i: int| 0 <= i < decimal(n).len() ==> is_digit(#[trigger] decimal(n)[i]),
        digits_value(decimal(n)) == n,
    decreases n,
{
    if n < 10 {
        lemma_digit_char(n);
        assert(decimal(n).drop_last() =~= Seq::<char>::empty());
        assert(decimal(n).last() == digit_char(n));
        assert(digits_value(decimal(n).drop_last()) == 0);
    } else {
        lemma_decimal_digits(n / 10);
        lemma_digit_char(n % 10);
        let s = decimal(n);
        assert(s.drop_last() =~= decimal(n / 10));
        assert(s.last() == digit_char(n % 10));
        assert(s.last() != '_');
        assert(n == (n / 10) * 10 + n % 10) by (nonlinear_arith);
        assert(digits_value(s) == digits_value(decimal(n / 10)) * 10 + digit_value(s.last()));
        assert forall|i: int| 0 <= i < s.len() implies is_digit(#[trigger] s[i]) by {
            if i < s.len() - 1 {
                assert(s[i] == decimal(n / 10)[i]);
            }
        }
    }
}

/// Reading the canonical decimal text of `n` back gives `n`.
pub proof fn lemma_decimal_reads_back(n: nat, bound: nat)
    requires
        n < bound,
    ensures
        decimal_value(decimal(n), bound) == Some(n),
{
    lemma_decimal_digits(n);
}

/// Relies on ark-ff's `Display` for `BigInt<4>`, which prints the integer
/// through num-bigint's `BigUint` in canonical base-10 form.
#[verifier::external_body]
pub(crate) fn field_int_to_decimal(v: &FieldInt) -> (r: String)
    ensures
        r@ == decimal(v@),
{
    ark_ff::BigInt::<4>(v.limbs).to_string()
}

/// Relies on ark-ff's `FromStr` for `BigInt<4>`: num-bigint's base-10 parser
/// (optional `+`, digits with `_` separators after the first), then a failure
/// when the value does not fit in 256 bits.
#[verifier::external_body]
pub(crate) fn parse_field_int(s: &str) -> (r: Option<FieldInt>)
    ensures
        r is Some <==> bounded_text_value(s@, int_bound()) is Some,
        r matches Some(v) ==> Some(v@) == bounded_text_value(s@, int_bound()),
{
    ark_ff::BigInt::<4>::from_str(s).ok().map(|b| FieldInt { limbs: b.0 })
}

/// Reads a base-10 unsigned integer text as an integer below `bound`, which
/// lies below 2^256. Texts with a sign or separators are refused.
pub fn parse_bounded(s: &str, bound: &FieldInt) -> (r: Option<FieldInt>)
    ensures
        r is Some <==> decimal_value(s@, bound@) is Some,
        r matches Some(v) ==> Some(v@) == decimal_value(s@, bound@),
{
    if !all_digits_text(s) {
        return None;
    }
    assert(is_digit(s@[0]));
    assert(sign_stripped(s@) == s@);
    proof {
        assert(bound@ < int_bound()) by (nonlinear_arith)
            requires
                bound.limbs@[0] < limb_base(),
                bound.limbs@[1] < limb_base(),
                bound.limbs@[2] < limb_base(),
                bound.limbs@[3] < limb_base(),
                bound@ == limbs_value(
                    bound.limbs@[0] as nat,
                    bound.limbs@[1] as nat,
                    bound.limbs@[2] as nat,
                    bound.limbs@[3] as nat,
                ),
                int_bound() == limb_base() * limb_base() * limb_base() * limb_base(),
        ;
    }
    match parse_field_int(s) {
        Some(v) => {
            if v.less_than(bound) {
                Some(v)
            } else {
                None
            }
        },
        None => None,
    }
}

impl FieldInt {
    /// The canonical decimal text of this integer.
    pub fn to_decimal(&self) -> (r: String)
        ensures
            r@ == decimal(self@),
    {
        field_int_to_decimal(self)
    }
}

/// The canonical decimal text of a `u64`.
pub fn u64_to_decimal(n: u64) -> (r: String)
    ensures
        r@ == decimal(n as nat),
{
    field_int_to_decimal(&FieldInt::from_u64(n))
}

} // verus!
