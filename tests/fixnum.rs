use mruby::interp::Mrb;
use mruby::types::{RawValue, Ruby, Rust, VType};
use mruby::value::{Error, Value};

fn object_value(interp: &mut Mrb) -> Value {
    interp.borrow_mut();
    let class = interp.def_class("Object");
    interp.release_mut();
    let raw = interp.new_object(class);
    Value::new(interp, raw)
}

#[test]
fn fail_convert() {
    let mut interp = Mrb::new();
    // a value that can't be converted to a primitive type.
    let value = object_value(&mut interp);
    let expected = Error {
        from: Ruby::Object,
        to: Rust::SignedInt,
    };
    let result = value.try_into_int().map(|_| ());
    assert_eq!(result, Err(expected));
}

#[test]
fn fixnum_to_usize() {
    let value = Value::from_int(100);
    let value = value.try_into_usize();
    let expected = Ok(100);
    assert_eq!(value, expected);
    let value = Value::from_int(-100);
    let value = value.try_into_usize();
    let expected = Err(Error {
        from: Ruby::Fixnum,
        to: Rust::UnsignedInt,
    });
    assert_eq!(value, expected);
}

#[test]
fn convert_to_fixnum() {
    for i in [0i64, 1, -1, 17, i64::MAX, i64::MIN] {
        let value = Value::from_int(i);
        assert_eq!(value.ruby_type(), Ruby::Fixnum);
    }
}

#[test]
fn fixnum_with_value() {
    for i in [0i64, 42, -42, i64::MAX, i64::MIN] {
        let value = Value::from_int(i);
        assert_eq!(value.inner().fixnum_to_int(), i);
    }
}

#[test]
fn roundtrip() {
    for i in [0i64, 5, -5, 1 << 40, i64::MAX, i64::MIN] {
        let value = Value::from_int(i);
        assert_eq!(value.try_into_int(), Ok(i));
    }
}

#[test]
fn roundtrip_narrow_widths() {
    assert_eq!(Value::from_u8(255).try_into_int(), Ok(255));
    assert_eq!(Value::from_u16(65535).try_into_int(), Ok(65535));
    assert_eq!(Value::from_u32(u32::MAX).try_into_int(), Ok(4294967295));
    assert_eq!(Value::from_i8(-128).try_into_int(), Ok(-128));
    assert_eq!(Value::from_i16(-32768).try_into_int(), Ok(-32768));
    assert_eq!(Value::from_i32(i32::MIN).try_into_int(), Ok(-2147483648));
}

#[test]
fn roundtrip_err() {
    for b in [true, false] {
        let value = Value::from_bool(b);
        let expected = Err(Error {
            from: Ruby::Bool,
            to: Rust::SignedInt,
        });
        assert_eq!(value.try_into_int(), expected);
    }
}

#[test]
fn usize_boundaries() {
    assert_eq!(Value::from_int(0).try_into_usize(), Ok(0));
    assert_eq!(Value::from_int(i64::MAX).try_into_usize(), Ok(i64::MAX as usize));
    assert_eq!(
        Value::from_int(-1).try_into_usize(),
        Err(Error { from: Ruby::Fixnum, to: Rust::UnsignedInt })
    );
    assert_eq!(
        Value::nil().try_into_usize(),
        Err(Error { from: Ruby::Nil, to: Rust::UnsignedInt })
    );
}

#[test]
fn bool_conversion() {
    assert_eq!(Value::from_bool(true).try_into_bool(), Ok(true));
    assert_eq!(Value::from_bool(false).try_into_bool(), Ok(false));
    assert_eq!(
        Value::nil().try_into_bool(),
        Err(Error { from: Ruby::Nil, to: Rust::Bool })
    );
    assert_eq!(
        Value::from_int(1).try_into_bool(),
        Err(Error { from: Ruby::Fixnum, to: Rust::Bool })
    );
}

#[test]
fn option_int_conversion() {
    assert_eq!(Value::nil().try_into_option_int(), Ok(None));
    assert_eq!(Value::from_int(3).try_into_option_int(), Ok(Some(3)));
    assert_eq!(Value::from_option(None).try_into_option_int(), Ok(None));
    assert_eq!(
        Value::from_option(Some(Value::from_int(-9))).try_into_option_int(),
        Ok(Some(-9))
    );
    assert_eq!(
        Value::from_bool(false).try_into_option_int(),
        Err(Error { from: Ruby::Bool, to: Rust::SignedInt })
    );
}

#[test]
fn nil_is_not_false() {
    let nil = RawValue::nil();
    let f = RawValue::boolean(false);
    assert!(nil.is_nil());
    assert!(!f.is_nil());
    assert_eq!(nil.tt, VType::False);
    assert_eq!(f.tt, VType::False);
}
