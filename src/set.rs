//! The `Set` standard library: two host classes and an interpreted source
//! file that fills them in.
use vstd::prelude::*;
use crate::interp::{BorrowState, InitHook, Mrb, MrbError};

verus! {

/// Host side of the runtime's `Set` class.
pub struct SetClass;

/// Host side of the runtime's `SortedSet` class.
pub struct SortedSet;

/// Defines the classes `Set` and `SortedSet` and registers `set.rb`, the
/// source that implements them. Fails, with both classes defined, where a
/// source of that name is already registered.
pub fn init(interp: &mut Mrb) -> (r: Result<(), MrbError>)
    requires
        old(interp).wf(),
        old(interp).state == BorrowState::Free,
    ensures
        final(interp).wf(),
        final(interp).state == BorrowState::Free,
        final(interp).classes@.len() == old(interp).classes@.len() + 2,
        forall|c: int| 0 <= c < old(interp).classes@.len() ==> #[trigger] final(interp).classes@[c] == old(interp).classes@[c],
        final(interp).classes@[old(interp).classes@.len() as int].name@ == "Set"@,
        final(interp).classes@[old(interp).classes@.len() as int].init == InitHook::Nothing,
        final(interp).classes@[old(interp).classes@.len() + 1int].name@ == "SortedSet"@,
        final(interp).classes@[old(interp).classes@.len() + 1int].init == InitHook::Nothing,
        final(interp).hashes == old(interp).hashes,
        final(interp).objects == old(interp).objects,
        r is Ok <==> !(exists|i: int| 0 <= i < old(interp).sources@.len() && #[trigger] old(interp).sources@[i]@ == "set.rb"@),
        r is Ok ==> final(interp).sources@ == old(interp).sources@.push(final(interp).sources@.last())
            && final(interp).sources@.last()@ == "set.rb"@,
        r is Err ==> final(interp).sources == old(interp).sources,
{
    interp.borrow_mut();
    interp.def_class("Set");
    interp.release_mut();
    interp.borrow_mut();
    interp.def_class("SortedSet");
    interp.release_mut();
    let r = interp.def_rb_source_file("set.rb");
    proof {
        if r is Ok {
            assert(final(interp).sources@ =~= old(interp).sources@.push(final(interp).sources@.last()));
        }
    }
    r
}

} // verus!
