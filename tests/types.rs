use mruby::types::{RawValue, Ruby, VType};

#[test]
fn nil_type() {
    let value = RawValue::nil();
    assert_eq!(Ruby::from(value), Ruby::Nil);
}

#[test]
fn bool_type() {
    let value = RawValue::boolean(false);
    assert_eq!(Ruby::from(value), Ruby::Bool);
    let value = RawValue::boolean(true);
    assert_eq!(Ruby::from(value), Ruby::Bool);
}

#[test]
fn fixnum_type() {
    let value = RawValue::fixnum(17);
    assert_eq!(Ruby::from(value), Ruby::Fixnum);
}

#[test]
fn other_types() {
    let raw = |tt| RawValue { tt, int: 0, ptr: 0 };
    assert_eq!(Ruby::from(raw(VType::Class)), Ruby::Class);
    assert_eq!(Ruby::from(raw(VType::CPtr)), Ruby::CPointer);
    assert_eq!(Ruby::from(raw(VType::Exception)), Ruby::Exception);
    assert_eq!(Ruby::from(raw(VType::Float)), Ruby::Float);
    assert_eq!(Ruby::from(raw(VType::Hash)), Ruby::Hash);
    assert_eq!(Ruby::from(raw(VType::Module)), Ruby::Module);
    assert_eq!(Ruby::from(raw(VType::Object)), Ruby::Object);
    assert_eq!(Ruby::from(raw(VType::String)), Ruby::String);
    assert_eq!(Ruby::from(raw(VType::Symbol)), Ruby::Symbol);
    assert_eq!(Ruby::from(raw(VType::True)), Ruby::Bool);
}
