use mruby::interp::{BorrowState, InitHook, Mrb, MrbError};
use mruby::set::init;
use mruby::types::Ruby;
use mruby::value::Value;

#[test]
fn obj_new_borrow_mut() {
    let mut interp = Mrb::new();
    interp.borrow_mut();
    let class = interp.def_class("Obj");
    interp.set_initializer(class, InitHook::BorrowMut);
    interp.release_mut();
    let obj = interp.new_object(class);
    assert_eq!(interp.state, BorrowState::Free);
    assert_eq!(Value::new(&interp, obj).ruby_type(), Ruby::Object);
}

#[test]
fn obj_new_repeated() {
    let mut interp = Mrb::new();
    interp.borrow_mut();
    let excl = interp.def_class("Excl");
    interp.set_initializer(excl, InitHook::BorrowMut);
    let shared = interp.def_class("Shared");
    interp.set_initializer(shared, InitHook::BorrowShared);
    interp.release_mut();
    for _ in 0..10 {
        interp.new_object(excl);
        interp.new_object(shared);
    }
    assert_eq!(interp.objects.len(), 20);
    assert_eq!(interp.objects[0], excl);
    assert_eq!(interp.objects[1], shared);
    assert_eq!(interp.state, BorrowState::Free);
}

#[test]
fn borrow_states() {
    let mut interp = Mrb::new();
    interp.borrow();
    interp.borrow();
    assert_eq!(interp.state, BorrowState::Shared(2));
    interp.release();
    assert_eq!(interp.state, BorrowState::Shared(1));
    interp.release();
    assert_eq!(interp.state, BorrowState::Free);
    interp.borrow_mut();
    assert_eq!(interp.state, BorrowState::Exclusive);
    interp.release_mut();
    assert_eq!(interp.state, BorrowState::Free);
}

#[test]
fn set_init() {
    let mut interp = Mrb::new();
    assert_eq!(init(&mut interp), Ok(()));
    assert_eq!(interp.classes.len(), 2);
    assert_eq!(interp.classes[0].name, "Set");
    assert_eq!(interp.classes[1].name, "SortedSet");
    assert_eq!(interp.sources, vec!["set.rb".to_string()]);
    assert_eq!(interp.state, BorrowState::Free);
    assert_eq!(init(&mut interp), Err(MrbError::SourceAlreadyDefined));
    assert_eq!(interp.classes.len(), 4);
    assert_eq!(interp.sources.len(), 1);
}
