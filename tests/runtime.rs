use mruby::interp::Mrb;
use mruby::types::RawValue;

#[test]
fn hash_primitives() {
    let mut interp = Mrb::new();
    let hash = interp.hash_new_capa(4);
    assert_eq!(interp.hash_size(hash), 0);
    interp.hash_set(hash, RawValue::fixnum(1), RawValue::fixnum(10));
    interp.hash_set(hash, RawValue::nil(), RawValue::boolean(true));
    interp.hash_set(hash, RawValue::fixnum(1), RawValue::fixnum(11));
    assert_eq!(interp.hash_size(hash), 2);
    assert_eq!(
        interp.hash_keys(hash),
        vec![RawValue::fixnum(1), RawValue::nil()]
    );
    assert_eq!(interp.hash_get(hash, RawValue::fixnum(1)), RawValue::fixnum(11));
    assert_eq!(interp.hash_get(hash, RawValue::nil()), RawValue::boolean(true));
    assert_eq!(interp.hash_get(hash, RawValue::fixnum(2)), RawValue::nil());
}

#[test]
fn source_registration() {
    let mut interp = Mrb::new();
    assert!(!interp.has_source("a.rb"));
    assert_eq!(interp.def_rb_source_file("a.rb"), Ok(()));
    assert!(interp.has_source("a.rb"));
    assert!(interp.def_rb_source_file("a.rb").is_err());
    assert_eq!(interp.sources.len(), 1);
}
