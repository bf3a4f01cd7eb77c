use std::collections::HashMap;

use mruby::interp::Mrb;
use mruby::types::{Ruby, Rust};
use mruby::value::{Error, Value};

#[test]
fn roundtrip_kv() {
    let mut interp = Mrb::new();

    let map = vec![
        (Value::from_int(1), Value::from_int(2)),
        (Value::from_int(7), Value::from_int(8)),
    ];

    let value = Value::from_pairs(&mut interp, map);
    assert_eq!("{1=>2, 7=>8}", value.to_s(&interp));

    let pairs = value.try_into_pairs(&interp).expect("convert");
    let map = pairs
        .into_iter()
        .map(|(key, value)| {
            let key = key.try_into_int().expect("convert");
            let value = value.try_into_int().expect("convert");
            (key, value)
        })
        .collect::<HashMap<_, _>>();
    let mut expected = HashMap::new();
    expected.insert(1, 2);
    expected.insert(7, 8);

    assert_eq!(map, expected);
}

#[test]
fn int_pairs_roundtrip() {
    let mut interp = Mrb::new();
    let value = Value::from_native_pairs(&mut interp, vec![(1i64, 2i64), (7, 8)]);
    assert_eq!(value.ruby_type(), Ruby::Hash);
    assert_eq!(value.try_into_native_pairs::<i64, i64>(&interp), Ok(vec![(1, 2), (7, 8)]));
}

#[test]
fn empty_hash_roundtrip() {
    let mut interp = Mrb::new();
    let value = Value::from_pairs(&mut interp, vec![]);
    assert_eq!(value.try_into_pairs(&interp).map(|p| p.len()), Ok(0));
    assert_eq!(value.try_into_native_pairs::<i64, i64>(&interp), Ok(vec![]));
    assert_eq!(value.to_s(&interp), "{}");
}

#[test]
fn repeated_key_keeps_place_takes_last_value() {
    let mut interp = Mrb::new();
    let value = Value::from_native_pairs(&mut interp, vec![(1i64, 2i64), (3, 4), (1, 5)]);
    assert_eq!(value.try_into_native_pairs::<i64, i64>(&interp), Ok(vec![(1, 5), (3, 4)]));
}

#[test]
fn mixed_types_roundtrip_as_handles() {
    let mut interp = Mrb::new();
    let inner = Value::from_native_pairs(&mut interp, vec![(9i64, 10i64)]);
    let pairs = vec![
        (Value::from_int(1), Value::from_bool(true)),
        (Value::nil(), Value::from_int(-4)),
        (Value::from_bool(false), inner),
    ];
    let value = Value::from_pairs(&mut interp, pairs.clone());
    assert_eq!(value.try_into_pairs(&interp), Ok(pairs));
}

#[test]
fn to_s_forms() {
    let mut interp = Mrb::new();
    let pairs = vec![
        (Value::from_int(1), Value::from_bool(true)),
        (Value::nil(), Value::from_int(-40)),
        (Value::from_bool(false), Value::from_int(i64::MIN)),
    ];
    let value = Value::from_pairs(&mut interp, pairs);
    assert_eq!(
        value.to_s(&interp),
        "{1=>true, nil=>-40, false=>-9223372036854775808}"
    );
    assert_eq!(Value::nil().to_s(&interp), "");
    assert_eq!(Value::from_int(1234567890).to_s(&interp), "1234567890");
    assert_eq!(Value::from_bool(false).to_s(&interp), "false");
}

#[test]
fn not_a_hash() {
    let interp = Mrb::new();
    let value = Value::from_int(3);
    assert_eq!(
        value.try_into_pairs(&interp),
        Err(Error { from: Ruby::Fixnum, to: Rust::Hash })
    );
    assert_eq!(
        Value::nil().try_into_native_pairs::<i64, i64>(&interp),
        Err(Error { from: Ruby::Nil, to: Rust::Hash })
    );
}

#[test]
fn first_bad_element_is_reported() {
    let mut interp = Mrb::new();
    let pairs = vec![
        (Value::from_int(1), Value::from_int(2)),
        (Value::from_int(3), Value::from_bool(true)),
        (Value::nil(), Value::from_int(4)),
    ];
    let value = Value::from_pairs(&mut interp, pairs);
    assert_eq!(
        value.try_into_native_pairs::<i64, i64>(&interp),
        Err(Error { from: Ruby::Bool, to: Rust::SignedInt })
    );
}

#[test]
fn nilable_keys() {
    let mut interp = Mrb::new();
    let value = Value::from_native_pairs(
        &mut interp,
        vec![(None, Value::from_int(1)), (Some(Value::from_int(2)), Value::from_int(3))],
    );
    let pairs = value.try_into_pairs(&interp).expect("convert");
    assert_eq!(pairs[0].0.try_into_option_int(), Ok(None));
    assert_eq!(pairs[1].0.try_into_option_int(), Ok(Some(2)));
    assert_eq!(pairs[1].1.try_into_int(), Ok(3));
}

#[test]
fn optional_and_boolean_pairs() {
    let mut interp = Mrb::new();
    let value = Value::from_native_pairs(
        &mut interp,
        vec![(Some(1i64), Some(true)), (None, None), (Some(2), Some(false))],
    );
    assert_eq!(
        value.try_into_native_pairs::<Option<i64>, Option<bool>>(&interp),
        Ok(vec![(Some(1), Some(true)), (None, None), (Some(2), Some(false))])
    );
    assert_eq!(
        value.try_into_native_pairs::<i64, Option<bool>>(&interp),
        Err(Error { from: Ruby::Nil, to: Rust::SignedInt })
    );
    assert_eq!(
        value.try_into_native_pairs::<Option<i64>, bool>(&interp),
        Err(Error { from: Ruby::Nil, to: Rust::Bool })
    );
    assert_eq!(value.to_s(&interp), "{1=>true, nil=>nil, 2=>false}");
}

#[test]
fn bool_keys_to_handles() {
    let mut interp = Mrb::new();
    let value = Value::from_native_pairs(
        &mut interp,
        vec![(true, Value::from_int(1)), (false, Value::nil())],
    );
    let back = value
        .try_into_native_pairs::<bool, Option<Value>>(&interp)
        .expect("convert");
    assert_eq!(back, vec![(true, Some(Value::from_int(1))), (false, None)]);
}
