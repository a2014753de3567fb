use ark_circom_witnesscalc::inputs::{
    calc_len, create_inputs, deserialize_inputs2, flatten_array2, InputError, InputValue,
};

fn s(t: &str) -> String {
    t.to_string()
}

fn table(entries: &[(&str, usize, usize)]) -> Vec<(String, usize, usize)> {
    entries.iter().map(|(n, o, l)| (s(n), *o, *l)).collect()
}

#[test]
fn flatten_nested_arrays_in_order() {
    let vs = vec![
        InputValue::Unsigned(1),
        InputValue::Array(vec![InputValue::Unsigned(2), InputValue::Unsigned(3)]),
        InputValue::Array(vec![InputValue::Array(vec![InputValue::Unsigned(4)])]),
    ];
    assert_eq!(flatten_array2("k", &vs).unwrap(), vec![s("1"), s("2"), s("3"), s("4")]);
    assert_eq!(calc_len(&vs), 4);
}

#[test]
fn flatten_keeps_string_texts() {
    let vs = vec![
        InputValue::Text(s("12345678901234567890123")),
        InputValue::Array(vec![]),
        InputValue::Text(s("7")),
    ];
    assert_eq!(flatten_array2("k", &vs).unwrap(), vec![s("12345678901234567890123"), s("7")]);
    assert_eq!(calc_len(&vs), 2);
}

#[test]
fn flatten_refuses_negative_numbers() {
    let vs = vec![InputValue::Unsigned(1), InputValue::Array(vec![InputValue::OtherNumber])];
    assert_eq!(flatten_array2("k", &vs), Err(InputError::NotPositive));
}

#[test]
fn flatten_refuses_other_values() {
    let vs = vec![InputValue::Array(vec![InputValue::Other]), InputValue::OtherNumber];
    assert_eq!(flatten_array2("sig", &vs), Err(InputError::NotAString(s("sig"))));
}

#[test]
fn deserialize_reads_each_signal() {
    let entries = vec![
        (s("a"), InputValue::Text(s("5"))),
        (s("b"), InputValue::Array(vec![InputValue::Text(s("1")), InputValue::Unsigned(2)])),
        (s("c"), InputValue::Unsigned(9)),
    ];
    let r = deserialize_inputs2(&entries).unwrap();
    assert_eq!(
        r,
        vec![(s("a"), vec![s("5")]), (s("b"), vec![s("1"), s("2")]), (s("c"), vec![s("9")])]
    );
}

#[test]
fn deserialize_refuses_bad_values() {
    let entries = vec![(s("a"), InputValue::Text(s("5"))), (s("b"), InputValue::Other)];
    assert_eq!(deserialize_inputs2(&entries), Err(InputError::BadValue(s("b"))));
    let entries = vec![(s("a"), InputValue::OtherNumber)];
    assert_eq!(deserialize_inputs2(&entries), Err(InputError::NotPositive));
}

#[test]
fn resolve_inputs_into_slots() {
    let info = table(&[("a", 0, 1), ("b", 1, 2)]);
    let inputs = vec![(s("a"), vec![5u64]), (s("b"), vec![1u64, 2u64])];
    assert_eq!(create_inputs(&inputs, &info, 0u64, 1u64).unwrap(), vec![1, 5, 1, 2]);
}

#[test]
fn resolve_keeps_the_constant_slot() {
    let info = table(&[("a", 0, 1)]);
    let inputs = vec![(s("a"), vec![5u64])];
    assert_eq!(create_inputs(&inputs, &info, 0u64, 1u64).unwrap(), vec![1, 5]);
}

#[test]
fn unaddressed_slots_stay_zero() {
    let info = table(&[("a", 0, 1), ("b", 3, 1)]);
    let inputs = vec![(s("a"), vec![8u64])];
    assert_eq!(create_inputs(&inputs, &info, 0u64, 1u64).unwrap(), vec![1, 8, 0, 0, 0]);
}

#[test]
fn resolve_refuses_wrong_length() {
    let info = table(&[("a", 0, 1), ("b", 1, 2)]);
    let inputs = vec![(s("a"), vec![5u64]), (s("b"), vec![1u64])];
    assert_eq!(create_inputs(&inputs, &info, 0u64, 1u64), Err(InputError::InvalidLength(s("b"))));
}

#[test]
fn resolve_refuses_unknown_key() {
    let info = table(&[("a", 0, 1), ("b", 1, 2)]);
    let inputs = vec![(s("c"), vec![5u64])];
    assert_eq!(create_inputs(&inputs, &info, 0u64, 1u64), Err(InputError::UnknownKey(s("c"))));
}

#[test]
fn resolve_with_empty_table() {
    let info = table(&[]);
    let inputs: Vec<(String, Vec<u64>)> = vec![];
    assert_eq!(create_inputs(&inputs, &info, 0u64, 1u64).unwrap(), vec![1]);
}
