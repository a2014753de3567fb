//! Signal inputs given as JSON values, flattened per signal and resolved
//! against a circuit's table of input signals into one input vector.
use crate::field::{decimal, u64_to_decimal};
use vstd::prelude::*;

verus! {

broadcast use vstd::seq::group_seq_axioms, vstd::std_specs::vec::group_vec_axioms;

/// A JSON value given for a signal, as far as input resolution reads it.
#[derive(Debug)]
pub enum InputValue {
    /// A string, which is handed on as the text of a field element.
    Text(String),
    /// A number that is a non-negative integer below 2^64.
    Unsigned(u64),
    /// Any other number: negative or fractional.
    OtherNumber,
    /// An array, possibly nested.
    Array(Vec<InputValue>),
    /// `null`, a boolean or an object.
    Other,
}

/// Why signal inputs were refused.
#[derive(Clone, Debug, PartialEq, Eq)]
pub enum InputError {
    /// A number that is not a non-negative integer.
    NotPositive,
    /// An element of the array for this signal that is neither a string, a
    /// number nor an array.
    NotAString(String),
    /// The value for this signal is neither a string, a number nor an array.
    BadValue(String),
    /// No input signal of this name exists.
    UnknownKey(String),
    /// The values given for this signal do not match its declared length.
    InvalidLength(String),
}

/// The content of an `InputError`, with names as character sequences.
pub enum InputFault {
    NotPositive,
    NotAString(Seq<char>),
    BadValue(Seq<char>),
    UnknownKey(Seq<char>),
    InvalidLength(Seq<char>),
}

impl View for InputError {
    type V = InputFault;

    open spec fn view(&self) -> InputFault {
        match self {
            InputError::NotPositive => InputFault::NotPositive,
            InputError::NotAString(k) => InputFault::NotAString(k@),
            InputError::BadValue(k) => InputFault::BadValue(k@),
            InputError::UnknownKey(k) => InputFault::UnknownKey(k@),
            InputError::InvalidLength(k) => InputFault::InvalidLength(k@),
        }
    }
}

/// The texts of a sequence of strings.
pub open spec fn texts(v: Seq<String>) -> Seq<Seq<char>> {
    v.map_values(|s: String| s@)
}

/// Depth-first flattening of array elements into field-element texts; a
/// non-negative integer becomes its decimal text. The first element that is
/// neither gives the error (`true` for a bad number, `false` for another value).
pub open spec fn flatten_spec(vs: Seq<InputValue>) -> Result<Seq<Seq<char>>, bool>
    decreases vs,
{
    if vs.len() == 0 {
        Ok(Seq::empty())
    } else {
        match flatten_spec(vs.subrange(0, vs.len() - 1)) {
            Err(e) => Err(e),
            Ok(a) => match vs[vs.len() - 1] {
                InputValue::Text(s) => Ok(a.push(s@)),
                InputValue::Unsigned(n) => Ok(a.push(decimal(n as nat))),
                InputValue::OtherNumber => Err(true),
                InputValue::Array(items) => match flatten_spec(items@) {
                    Err(e) => Err(e),
                    Ok(b) => Ok(a + b),
                },
                InputValue::Other => Err(false),
            },
        }
    }
}

/// The number of scalar places in a nested array: an array counts its own.
pub open spec fn leaf_count(vs: Seq<InputValue>) -> nat
    decreases vs,
{
    if vs.len() == 0 {
        0
    } else {
        leaf_count(vs.subrange(0, vs.len() - 1)) + match vs[vs.len() - 1] {
            InputValue::Array(items) => leaf_count(items@),
            _ => 1,
        }
    }
}

proof fn lemma_leaf_count_prefix(vs: Seq<InputValue>, i: int)
    requires
        0 <= i <= vs.len(),
    ensures
        leaf_count(vs.subrange(0, i)) <= leaf_count(vs),
    decreases vs.len() - i,
{
    if i < vs.len() {
        lemma_leaf_count_prefix(vs, i + 1);
        assert(vs.subrange(0, i + 1).subrange(0, i) =~= vs.subrange(0, i));
    } else {
        assert(vs.subrange(0, i) =~= vs);
    }
}

/// When a nested array flattens, it gives as many texts as `calc_len` counts
/// places.
pub proof fn lemma_flatten_length(vs: Seq<InputValue>)
    ensures
        flatten_spec(vs) matches Ok(t) ==> t.len() == leaf_count(vs),
    decreases vs,
{
    if vs.len() > 0 {
        lemma_flatten_length(vs.subrange(0, vs.len() - 1));
        match vs[vs.len() - 1] {
            InputValue::Array(items) => {
                lemma_flatten_length(items@);
            },
            _ => {},
        }
    }
}

/// The number of scalar places in `vs`, arrays flattened.
pub fn calc_len(vs: &Vec<InputValue>) -> (r: usize)
    requires
        leaf_count(vs@) <= usize::MAX,
    ensures
        r == leaf_count(vs@),
    decreases vs,
{
    let mut len: usize = 0;
    let mut i: usize = 0;
    while i < vs.len()
        invariant
            i <= vs@.len(),
            leaf_count(vs@) <= usize::MAX,
            len == leaf_count(vs@.subrange(0, i as int)),
        decreases vs@.len() - i,
    {
        proof {
            lemma_leaf_count_prefix(vs@, i + 1);
            assert(vs@.subrange(0, i + 1).subrange(0, i as int) =~= vs@.subrange(0, i as int));
        }
        match &vs[i] {
            InputValue::Array(arr) => {
                assert(leaf_count(arr@) <= leaf_count(vs@.subrange(0, i + 1)));
                let n = calc_len(arr);
                len = len + n;
            },
            _ => {
                len = len + 1;
            },
        }
        i = i + 1;
    }
    assert(vs@.subrange(0, i as int) =~= vs@);
    len
}

/// Flattens the array given for signal `key` depth-first into the texts of its
/// scalars, in order. A number that is not a non-negative integer is refused,
/// and so is a value that is neither a string, a number nor an array.
pub fn flatten_array2(key: &str, vs: &Vec<InputValue>) -> (r: Result<Vec<String>, InputError>)
    ensures
        match flatten_spec(vs@) {
            Ok(t) => r matches Ok(v) && texts(v@) == t,
            Err(true) => r matches Err(e) && e@ == InputFault::NotPositive,
            Err(false) => r matches Err(e) && e@ == InputFault::NotAString(key@),
        },
    decreases vs,
{
    let mut vals: Vec<String> = Vec::new();
    let mut i: usize = 0;
    assert(vs@.subrange(0, 0) =~= Seq::<InputValue>::empty());
    assert(texts(vals@) =~= Seq::<Seq<char>>::empty());
    while i < vs.len()
        invariant
            i <= vs@.len(),
            flatten_spec(vs@.subrange(0, i as int)) == Ok::<Seq<Seq<char>>, bool>(texts(vals@)),
        decreases vs@.len() - i,
    {
        let ghost prev = vals@;
        assert(vs@.subrange(0, i + 1).subrange(0, i as int) =~= vs@.subrange(0, i as int));
        assert(vs@.subrange(0, i + 1)[i as int] == vs@[i as int]);
        match &vs[i] {
            InputValue::Text(s) => {
                vals.push(s.clone());
                assert(texts(vals@) =~= texts(prev).push(s@));
            },
            InputValue::Unsigned(n) => {
                vals.push(u64_to_decimal(*n));
                assert(texts(vals@) =~= texts(prev).push(decimal(*n as nat)));
            },
            InputValue::OtherNumber => {
                proof {
                    lemma_flatten_error_stays(vs@, i as int + 1);
                }
                return Err(InputError::NotPositive);
            },
            InputValue::Array(arr) => {
                match flatten_array2(key, arr) {
                    Ok(sub) => {
                        let mut k: usize = 0;
                        while k < sub.len()
                            invariant
                                k <= sub@.len(),
                                texts(vals@) =~= texts(prev) + texts(sub@).subrange(0, k as int),
                            decreases sub@.len() - k,
                        {
                            let ghost before = vals@;
                            let t = sub[k].clone();
                            vals.push(t);
                            assert(texts(vals@) =~= texts(before).push(sub@[k as int]@));
                            assert(texts(sub@).subrange(0, k + 1) =~= texts(sub@).subrange(
                                0,
                                k as int,
                            ).push(sub@[k as int]@));
                            k = k + 1;
                        }
                        assert(texts(sub@).subrange(0, k as int) =~= texts(sub@));
                    },
                    Err(e) => {
                        proof {
                            lemma_flatten_error_stays(vs@, i as int + 1);
                        }
                        return Err(e);
                    },
                }
            },
            InputValue::Other => {
                proof {
                    lemma_flatten_error_stays(vs@, i as int + 1);
                }
                return Err(InputError::NotAString(key.to_string()));
            },
        }
        i = i + 1;
    }
    assert(vs@.subrange(0, i as int) =~= vs@);
    Ok(vals)
}

/// Once a prefix fails to flatten, the whole sequence fails with its error.
proof fn lemma_flatten_error_stays(vs: Seq<InputValue>, i: int)
    requires
        0 <= i <= vs.len(),
        flatten_spec(vs.subrange(0, i)) is Err,
    ensures
        flatten_spec(vs) == flatten_spec(vs.subrange(0, i)),
    decreases vs.len() - i,
{
    if i < vs.len() {
        assert(vs.subrange(0, i + 1).subrange(0, i) =~= vs.subrange(0, i));
        lemma_flatten_error_stays(vs, i + 1);
    } else {
        assert(vs.subrange(0, i) =~= vs);
    }
}


/// The texts given for one signal: a string or an integer stands alone, an
/// array is flattened.
pub open spec fn signal_spec(key: Seq<char>, v: InputValue) -> Result<Seq<Seq<char>>, InputFault> {
    match v {
        InputValue::Text(s) => Ok(seq![s@]),
        InputValue::Unsigned(n) => Ok(seq![decimal(n as nat)]),
        InputValue::OtherNumber => Err(InputFault::NotPositive),
        InputValue::Array(items) => match flatten_spec(items@) {
            Ok(t) => Ok(t),
            Err(true) => Err(InputFault::NotPositive),
            Err(false) => Err(InputFault::NotAString(key)),
        },
        InputValue::Other => Err(InputFault::BadValue(key)),
    }
}

/// The texts of every signal, in the order given; the first signal that is
/// refused gives the error.
pub open spec fn signals_spec(es: Seq<(String, InputValue)>) -> Result<
    Seq<(Seq<char>, Seq<Seq<char>>)>,
    InputFault,
>
    decreases es.len(),
{
    if es.len() == 0 {
        Ok(Seq::empty())
    } else {
        match signals_spec(es.subrange(0, es.len() - 1)) {
            Err(e) => Err(e),
            Ok(a) => {
                let (k, v) = es[es.len() - 1];
                match signal_spec(k@, v) {
                    Err(e) => Err(e),
                    Ok(t) => Ok(a.push((k@, t))),
                }
            },
        }
    }
}

/// The names and texts of a list of signals.
pub open spec fn signal_texts(v: Seq<(String, Vec<String>)>) -> Seq<(Seq<char>, Seq<Seq<char>>)> {
    v.map_values(|e: (String, Vec<String>)| (e.0@, texts(e.1@)))
}

proof fn lemma_signals_error_stays(es: Seq<(String, InputValue)>, i: int)
    requires
        0 <= i <= es.len(),
        signals_spec(es.subrange(0, i)) is Err,
    ensures
        signals_spec(es) == signals_spec(es.subrange(0, i)),
    decreases es.len() - i,
{
    if i < es.len() {
        assert(es.subrange(0, i + 1).subrange(0, i) =~= es.subrange(0, i));
        lemma_signals_error_stays(es, i + 1);
    } else {
        assert(es.subrange(0, i) =~= es);
    }
}

/// Reads the members of a JSON input object, in order, into the texts of the
/// field elements given for each signal.
pub fn deserialize_inputs2(entries: &Vec<(String, InputValue)>) -> (r: Result<
    Vec<(String, Vec<String>)>,
    InputError,
>)
    ensures
        match signals_spec(entries@) {
            Ok(t) => r matches Ok(v) && signal_texts(v@) == t,
            Err(f) => r matches Err(e) && e@ == f,
        },
{
    let mut out: Vec<(String, Vec<String>)> = Vec::new();
    let mut i: usize = 0;
    assert(entries@.subrange(0, 0) =~= Seq::<(String, InputValue)>::empty());
    assert(signal_texts(out@) =~= Seq::<(Seq<char>, Seq<Seq<char>>)>::empty());
    while i < entries.len()
        invariant
            i <= entries@.len(),
            signals_spec(entries@.subrange(0, i as int)) == Ok::<
                Seq<(Seq<char>, Seq<Seq<char>>)>,
                InputFault,
            >(signal_texts(out@)),
        decreases entries@.len() - i,
    {
        let ghost prev = out@;
        assert(entries@.subrange(0, i + 1).subrange(0, i as int) =~= entries@.subrange(
            0,
            i as int,
        ));
        assert(entries@.subrange(0, i + 1)[i as int] == entries@[i as int]);
        let key = &entries[i].0;
        let vals: Vec<String> = match &entries[i].1 {
            InputValue::Text(s) => {
                let v = vec![s.clone()];
                assert(texts(v@) =~= seq![s@]);
                v
            },
            InputValue::Unsigned(n) => {
                let v = vec![u64_to_decimal(*n)];
                assert(texts(v@) =~= seq![decimal(*n as nat)]);
                v
            },
            InputValue::OtherNumber => {
                proof {
                    lemma_signals_error_stays(entries@, i as int + 1);
                }
                return Err(InputError::NotPositive);
            },
            InputValue::Array(items) => match flatten_array2(key.as_str(), items) {
                Ok(v) => v,
                Err(e) => {
                    proof {
                        lemma_signals_error_stays(entries@, i as int + 1);
                    }
                    return Err(e);
                },
            },
            InputValue::Other => {
                proof {
                    lemma_signals_error_stays(entries@, i as int + 1);
                }
                return Err(InputError::BadValue(key.clone()));
            },
        };
        out.push((key.clone(), vals));
        assert(signal_texts(out@) =~= signal_texts(prev).push((key@, texts(vals@))));
        i = i + 1;
    }
    assert(entries@.subrange(0, i as int) =~= entries@);
    Ok(out)
}


/// An input signal of a circuit: its name, its first slot in the input
/// vector and the number of slots it takes.
pub type SignalInfo = (String, usize, usize);

/// The slot and length of the first signal of the table with this name.
pub open spec fn lookup_signal(info: Seq<SignalInfo>, key: Seq<char>) -> Option<(usize, usize)>
    decreases info.len(),
{
    if info.len() == 0 {
        None
    } else {
        match lookup_signal(info.subrange(0, info.len() - 1), key) {
            Some(p) => Some(p),
            None => if info[info.len() - 1].0@ == key {
                Some((info[info.len() - 1].1, info[info.len() - 1].2))
            } else {
                None
            },
        }
    }
}

/// The largest end (slot plus length) over the table, zero for an empty table.
pub open spec fn max_end(info: Seq<SignalInfo>) -> nat
    decreases info.len(),
{
    if info.len() == 0 {
        0
    } else {
        let m = max_end(info.subrange(0, info.len() - 1));
        let e = (info[info.len() - 1].1 + info[info.len() - 1].2) as nat;
        if e > m {
            e
        } else {
            m
        }
    }
}

/// The first supplied signal, in order, that the table does not name or whose
/// length differs from the declared one.
pub open spec fn input_fault<T>(inputs: Seq<(String, Vec<T>)>, info: Seq<SignalInfo>) -> Option<
    InputFault,
>
    decreases inputs.len(),
{
    if inputs.len() == 0 {
        None
    } else {
        match input_fault(inputs.subrange(0, inputs.len() - 1), info) {
            Some(f) => Some(f),
            None => {
                let (k, v) = inputs[inputs.len() - 1];
                match lookup_signal(info, k@) {
                    None => Some(InputFault::UnknownKey(k@)),
                    Some((_, len)) => if len != v@.len() {
                        Some(InputFault::InvalidLength(k@))
                    } else {
                        None
                    },
                }
            },
        }
    }
}

/// `s` with `vals` written from slot `offset` on.
pub open spec fn write_at<T>(s: Seq<T>, offset: int, vals: Seq<T>) -> Seq<T> {
    Seq::new(
        s.len(),
        |i: int|
            if offset <= i < offset + vals.len() {
                vals[i - offset]
            } else {
                s[i]
            },
    )
}

/// `base` with the values of every supplied signal written, in order, from the
/// slot after its table offset: offsets count from the slot that follows the
/// constant one.
pub open spec fn resolved<T>(inputs: Seq<(String, Vec<T>)>, info: Seq<SignalInfo>, base: Seq<T>) -> Seq<
    T,
>
    decreases inputs.len(),
{
    if inputs.len() == 0 {
        base
    } else {
        let s = resolved(inputs.subrange(0, inputs.len() - 1), info, base);
        let (k, v) = inputs[inputs.len() - 1];
        match lookup_signal(info, k@) {
            Some((offset, _)) => write_at(s, offset + 1, v@),
            None => s,
        }
    }
}

/// The input vector before any signal is written: `one` in slot 0, `zero` in
/// the other slots up to the largest end of the table.
pub open spec fn blank_inputs<T>(info: Seq<SignalInfo>, zero: T, one: T) -> Seq<T> {
    Seq::new(max_end(info) + 1, |i: int| if i == 0 { one } else { zero })
}

proof fn lemma_lookup_within_max(info: Seq<SignalInfo>, key: Seq<char>)
    ensures
        lookup_signal(info, key) matches Some((o, l)) ==> o + l <= max_end(info),
    decreases info.len(),
{
    if info.len() > 0 {
        lemma_lookup_within_max(info.subrange(0, info.len() - 1), key);
    }
}

proof fn lemma_lookup_stays(info: Seq<SignalInfo>, key: Seq<char>, j: int)
    requires
        0 <= j <= info.len(),
        lookup_signal(info.subrange(0, j), key) is Some,
    ensures
        lookup_signal(info, key) == lookup_signal(info.subrange(0, j), key),
    decreases info.len() - j,
{
    if j < info.len() {
        assert(info.subrange(0, j + 1).subrange(0, j) =~= info.subrange(0, j));
        lemma_lookup_stays(info, key, j + 1);
    } else {
        assert(info.subrange(0, j) =~= info);
    }
}

proof fn lemma_fault_stays<T>(inputs: Seq<(String, Vec<T>)>, info: Seq<SignalInfo>, i: int)
    requires
        0 <= i <= inputs.len(),
        input_fault(inputs.subrange(0, i), info) is Some,
    ensures
        input_fault(inputs, info) == input_fault(inputs.subrange(0, i), info),
    decreases inputs.len() - i,
{
    if i < inputs.len() {
        assert(inputs.subrange(0, i + 1).subrange(0, i) =~= inputs.subrange(0, i));
        lemma_fault_stays(inputs, info, i + 1);
    } else {
        assert(inputs.subrange(0, i) =~= inputs);
    }
}

/// The slot and length of the first table entry named `key`.
fn find_signal(info: &Vec<SignalInfo>, key: &String) -> (r: Option<(usize, usize)>)
    ensures
        r == lookup_signal(info@, key@),
{
    let mut j: usize = 0;
    assert(info@.subrange(0, 0) =~= Seq::<SignalInfo>::empty());
    while j < info.len()
        invariant
            j <= info@.len(),
            lookup_signal(info@.subrange(0, j as int), key@) is None,
        decreases info@.len() - j,
    {
        assert(info@.subrange(0, j + 1).subrange(0, j as int) =~= info@.subrange(0, j as int));
        if info[j].0 == *key {
            proof {
                lemma_lookup_stays(info@, key@, j + 1);
            }
            return Some((info[j].1, info[j].2));
        }
        j = j + 1;
    }
    assert(info@.subrange(0, j as int) =~= info@);
    None
}

/// Builds the input vector of a circuit from the values supplied per signal.
///
/// The vector reaches one slot past the largest end in the table; slot 0 holds
/// `one`, every other slot `zero` until a signal is written over it. Table
/// offsets count from the slot after the constant: each supplied signal is
/// written, in order, from slot `1 + offset`, so slot 0 keeps `one`. A
/// signal that the table does not name, or whose values differ in number from
/// its declared length, is refused: the first such signal gives the error.
pub fn create_inputs<T: Copy>(
    input_list: &Vec<(String, Vec<T>)>,
    inputs_info: &Vec<SignalInfo>,
    zero: T,
    one: T,
) -> (r: Result<Vec<T>, InputError>)
    requires
        forall|j: int|
            0 <= j < inputs_info@.len() ==> #[trigger] inputs_info@[j].1 + inputs_info@[j].2
                < usize::MAX,
    ensures
        match input_fault(input_list@, inputs_info@) {
            Some(f) => r matches Err(e) && e@ == f,
            None => r matches Ok(v) && v@ == resolved(
                input_list@,
                inputs_info@,
                blank_inputs(inputs_info@, zero, one),
            ),
        },
{
    let mut max_idx: usize = 0;
    let mut j: usize = 0;
    assert(inputs_info@.subrange(0, 0) =~= Seq::<SignalInfo>::empty());
    while j < inputs_info.len()
        invariant
            j <= inputs_info@.len(),
            max_idx == max_end(inputs_info@.subrange(0, j as int)),
            max_idx < usize::MAX,
            forall|q: int|
                0 <= q < inputs_info@.len() ==> #[trigger] inputs_info@[q].1 + inputs_info@[q].2
                    < usize::MAX,
        decreases inputs_info@.len() - j,
    {
        assert(inputs_info@.subrange(0, j + 1).subrange(0, j as int) =~= inputs_info@.subrange(
            0,
            j as int,
        ));
        assert(inputs_info@.subrange(0, j + 1)[j as int] == inputs_info@[j as int]);
        let idx = inputs_info[j].1 + inputs_info[j].2;
        if idx > max_idx {
            max_idx = idx;
        }
        j = j + 1;
    }
    assert(inputs_info@.subrange(0, j as int) =~= inputs_info@);
    let ghost blank = blank_inputs(inputs_info@, zero, one);
    let mut inputs: Vec<T> = Vec::new();
    inputs.push(one);
    let mut z: usize = 0;
    while z < max_idx
        invariant
            z <= max_idx,
            max_idx == max_end(inputs_info@),
            blank == blank_inputs(inputs_info@, zero, one),
            inputs@ =~= blank.subrange(0, z + 1),
        decreases max_idx - z,
    {
        inputs.push(zero);
        z = z + 1;
    }
    assert(inputs@ =~= blank);
    let mut i: usize = 0;
    assert(input_list@.subrange(0, 0) =~= Seq::<(String, Vec<T>)>::empty());
    while i < input_list.len()
        invariant
            i <= input_list@.len(),
            max_idx == max_end(inputs_info@),
            input_fault(input_list@.subrange(0, i as int), inputs_info@) is None,
            inputs@ == resolved(input_list@.subrange(0, i as int), inputs_info@, blank),
            inputs@.len() == max_idx + 1,
        decreases input_list@.len() - i,
    {
        let ghost prefix = input_list@.subrange(0, i + 1);
        assert(prefix.subrange(0, i as int) =~= input_list@.subrange(0, i as int));
        assert(prefix[i as int] == input_list@[i as int]);
        let key = &input_list[i].0;
        let value = &input_list[i].1;
        match find_signal(inputs_info, key) {
            None => {
                proof {
                    lemma_fault_stays(input_list@, inputs_info@, i + 1);
                }
                return Err(InputError::UnknownKey(key.clone()));
            },
            Some((offset, len)) => {
                if len != value.len() {
                    proof {
                        lemma_fault_stays(input_list@, inputs_info@, i + 1);
                    }
                    return Err(InputError::InvalidLength(key.clone()));
                }
                proof {
                    lemma_lookup_within_max(inputs_info@, key@);
                }
                let ghost before = inputs@;
                let mut k: usize = 0;
                while k < len
                    invariant
                        k <= len,
                        len == value@.len(),
                        offset + len <= max_idx,
                        before.len() == max_idx + 1,
                        inputs@ =~= write_at(before, offset + 1, value@.subrange(0, k as int)),
                    decreases len - k,
                {
                    inputs.set(offset + 1 + k, value[k]);
                    k = k + 1;
                }
                assert(value@.subrange(0, k as int) =~= value@);
            },
        }
        i = i + 1;
    }
    assert(input_list@.subrange(0, i as int) =~= input_list@);
    Ok(inputs)
}

/// Resolution keeps the length of the blank vector, `1 + max_end`, and never
/// writes over slot 0: the constant stays `one`.
pub proof fn lemma_constant_slot_kept<T>(
    inputs: Seq<(String, Vec<T>)>,
    info: Seq<SignalInfo>,
    zero: T,
    one: T,
)
    ensures
        resolved(inputs, info, blank_inputs(info, zero, one)).len() == max_end(info) + 1,
        resolved(inputs, info, blank_inputs(info, zero, one))[0] == one,
    decreases inputs.len(),
{
    if inputs.len() > 0 {
        lemma_constant_slot_kept(inputs.subrange(0, inputs.len() - 1), info, zero, one);
    }
}

} // verus!
