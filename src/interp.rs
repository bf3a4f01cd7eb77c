//! The interpreter handle: the runtime's heap, its classes, and the borrow
//! state that guards them.
use vstd::prelude::*;
use crate::types::{classify, nil_raw, RawValue, VType};

verus! {

/// Borrow state of the interpreter handle.
#[derive(Clone, Copy, Debug, PartialEq, Eq, Structural)]
pub enum BorrowState {
    Free,
    Shared(u64),
    Exclusive,
}

/// What the host-side initializer of a class does with the interpreter when
/// the runtime calls back into it during object construction.
#[derive(Clone, Copy, Debug, PartialEq, Eq, Structural)]
pub enum InitHook {
    Nothing,
    BorrowShared,
    BorrowMut,
}

/// A class defined by the host.
pub struct ClassDef {
    pub name: String,
    pub init: InitHook,
}

/// Errors of interpreter setup.
#[derive(Clone, Copy, Debug, PartialEq, Eq, Structural)]
pub enum MrbError {
    SourceAlreadyDefined,
}

pub type Pairs = Seq<(RawValue, RawValue)>;

/// Keys of a hash are pairwise distinct.
pub open spec fn unique_keys(s: Pairs) -> bool {
    forall|i: int, j: int| 0 <= i < j < s.len() ==> s[i].0 != s[j].0
}

pub open spec fn has_key(s: Pairs, k: RawValue) -> bool {
    exists|i: int| 0 <= i < s.len() && s[i].0 == k
}

/// The runtime's hash store: an existing key keeps its place and takes the
/// new value, a new key is appended.
pub open spec fn hash_put(s: Pairs, k: RawValue, v: RawValue) -> Pairs {
    if has_key(s, k) {
        let i = choose|i: int| 0 <= i < s.len() && s[i].0 == k;
        s.update(i, (k, v))
    } else {
        s.push((k, v))
    }
}

/// Storing each pair in turn.
pub open spec fn hash_put_all(s: Pairs, ps: Pairs) -> Pairs
    decreases ps.len(),
{
    if ps.len() == 0 {
        s
    } else {
        hash_put(hash_put_all(s, ps.drop_last()), ps.last().0, ps.last().1)
    }
}

/// The interpreter: the runtime's heap (hashes and objects), the classes the
/// host defined, the source files registered for loading, and the borrow
/// state of the handle.
///
/// A raw value of a boxed kind refers to a slot of the heap through `ptr`.
pub struct Mrb {
    pub state: BorrowState,
    pub hashes: Vec<Vec<(RawValue, RawValue)>>,
    pub objects: Vec<usize>,
    pub classes: Vec<ClassDef>,
    pub sources: Vec<String>,
}

impl Mrb {
    /// A raw value that this interpreter can classify and whose heap slot,
    /// if any, exists.
    pub open spec fn valid_raw(&self, v: RawValue) -> bool {
        &&& classify(v) is Some
        &&& v.tt == VType::Hash ==> v.ptr < self.hashes@.len()
        &&& v.tt == VType::Object ==> v.ptr < self.objects@.len()
        &&& v.tt == VType::Class ==> v.ptr < self.classes@.len()
    }

    pub open spec fn hash_at(&self, h: int) -> Pairs {
        self.hashes@[h]@
    }

    pub open spec fn wf(&self) -> bool {
        &&& forall|h: int| 0 <= h < self.hashes@.len() ==> unique_keys(#[trigger] self.hash_at(h))
        &&& forall|h: int, j: int|
            0 <= h < self.hashes@.len() && 0 <= j < self.hash_at(h).len() ==> {
                &&& self.valid_raw(#[trigger] self.hash_at(h)[j].0)
                &&& self.valid_raw(self.hash_at(h)[j].1)
            }
        &&& forall|o: int| 0 <= o < self.objects@.len() ==> #[trigger] self.objects@[o] < self.classes@.len()
    }

    /// The heap and the class table of `other` are at least as large as
    /// those of `self`.
    pub open spec fn grows_to(&self, other: &Mrb) -> bool {
        &&& self.hashes@.len() <= other.hashes@.len()
        &&& self.objects@.len() <= other.objects@.len()
        &&& self.classes@.len() <= other.classes@.len()
    }

    pub proof fn lemma_valid_grows(&self, other: &Mrb, v: RawValue)
        requires
            self.grows_to(other),
            self.valid_raw(v),
        ensures
            other.valid_raw(v),
    {
    }

    /// Well-formedness depends on the heap and the classes alone.
    pub proof fn lemma_wf_same_heap(&self, other: &Mrb)
        requires
            self.wf(),
            other.hashes@ == self.hashes@,
            other.objects@ == self.objects@,
            other.classes@.len() == self.classes@.len(),
        ensures
            other.wf(),
    {
        assert forall|h: int, j: int|
            0 <= h < other.hashes@.len() && 0 <= j < other.hash_at(h).len() implies {
                &&& other.valid_raw(#[trigger] other.hash_at(h)[j].0)
                &&& other.valid_raw(other.hash_at(h)[j].1)
            } by {
            assert(self.hash_at(h) == other.hash_at(h));
            assert(self.valid_raw(self.hash_at(h)[j].0));
        }
        assert forall|h: int| 0 <= h < other.hashes@.len() implies unique_keys(#[trigger] other.hash_at(h)) by {
            assert(self.hash_at(h) == other.hash_at(h));
        }
    }

    /// A fresh interpreter with an empty heap.
    pub fn new() -> (r: Mrb)
        ensures
            r.wf(),
            r.state == BorrowState::Free,
            r.hashes@.len() == 0,
            r.objects@.len() == 0,
            r.classes@.len() == 0,
            r.sources@.len() == 0,
    {
        Mrb {
            state: BorrowState::Free,
            hashes: Vec::new(),
            objects: Vec::new(),
            classes: Vec::new(),
            sources: Vec::new(),
        }
    }

    /// Takes a shared borrow. Taking one while the handle is exclusively
    /// borrowed is a contract violation.
    pub fn borrow(&mut self)
        requires
            old(self).state != BorrowState::Exclusive,
            old(self).state matches BorrowState::Shared(n) ==> n < u64::MAX,
        ensures
            old(self).wf() ==> final(self).wf(),
            final(self).state == (match old(self).state {
                BorrowState::Shared(n) => BorrowState::Shared((n + 1) as u64),
                _ => BorrowState::Shared(1),
            }),
            final(self).hashes == old(self).hashes,
            final(self).objects == old(self).objects,
            final(self).classes == old(self).classes,
            final(self).sources == old(self).sources,
    {
        self.state = match self.state {
            BorrowState::Shared(n) => BorrowState::Shared(n + 1),
            _ => BorrowState::Shared(1),
        };
        proof {
            if old(self).wf() {
                old(self).lemma_wf_same_heap(self);
            }
        }
    }

    /// Gives back a shared borrow.
    pub fn release(&mut self)
        requires
            old(self).state matches BorrowState::Shared(n) && n > 0,
        ensures
            old(self).wf() ==> final(self).wf(),
            final(self).state == (match old(self).state {
                BorrowState::Shared(n) => if n == 1 { BorrowState::Free } else { BorrowState::Shared((n - 1) as u64) },
                _ => BorrowState::Free,
            }),
            final(self).hashes == old(self).hashes,
            final(self).objects == old(self).objects,
            final(self).classes == old(self).classes,
            final(self).sources == old(self).sources,
    {
        self.state = match self.state {
            BorrowState::Shared(n) => if n <= 1 { BorrowState::Free } else { BorrowState::Shared(n - 1) },
            _ => BorrowState::Free,
        };
        proof {
            if old(self).wf() {
                old(self).lemma_wf_same_heap(self);
            }
        }
    }

    /// Takes the exclusive borrow. It is owed only while no borrow is held.
    pub fn borrow_mut(&mut self)
        requires
            old(self).state == BorrowState::Free,
        ensures
            old(self).wf() ==> final(self).wf(),
            final(self).state == BorrowState::Exclusive,
            final(self).hashes == old(self).hashes,
            final(self).objects == old(self).objects,
            final(self).classes == old(self).classes,
            final(self).sources == old(self).sources,
    {
        self.state = BorrowState::Exclusive;
        proof {
            if old(self).wf() {
                old(self).lemma_wf_same_heap(self);
            }
        }
    }

    /// Gives back the exclusive borrow.
    pub fn release_mut(&mut self)
        requires
            old(self).state == BorrowState::Exclusive,
        ensures
            old(self).wf() ==> final(self).wf(),
            final(self).state == BorrowState::Free,
            final(self).hashes == old(self).hashes,
            final(self).objects == old(self).objects,
            final(self).classes == old(self).classes,
            final(self).sources == old(self).sources,
    {
        self.state = BorrowState::Free;
        proof {
            if old(self).wf() {
                old(self).lemma_wf_same_heap(self);
            }
        }
    }
    /// Unchanged apart from the hash in slot `h`.
    pub open spec fn same_but_hash(&self, other: &Mrb, h: int) -> bool {
        &&& other.state == self.state
        &&& other.hashes@.len() == self.hashes@.len()
        &&& forall|g: int| 0 <= g < self.hashes@.len() && g != h ==> #[trigger] other.hash_at(g) == self.hash_at(g)
        &&& other.objects == self.objects
        &&& other.classes == self.classes
        &&& other.sources == self.sources
    }

    /// Allocates an empty hash. `capa` is a size hint only.
    pub fn hash_new_capa(&mut self, capa: i64) -> (r: RawValue)
        requires
            old(self).wf(),
            old(self).state != BorrowState::Exclusive,
            capa >= 0,
        ensures
            final(self).wf(),
            final(self).state == old(self).state,
            final(self).hashes@.len() == old(self).hashes@.len() + 1,
            forall|g: int| 0 <= g < old(self).hashes@.len() ==> #[trigger] final(self).hash_at(g) == old(self).hash_at(g),
            final(self).hash_at(old(self).hashes@.len() as int) == Seq::<(RawValue, RawValue)>::empty(),
            final(self).objects == old(self).objects,
            final(self).classes == old(self).classes,
            final(self).sources == old(self).sources,
            r.tt == VType::Hash,
            r.int == 0,
            r.ptr == old(self).hashes@.len(),
    {
        let ptr = self.hashes.len();
        self.hashes.push(Vec::with_capacity(capa as usize));
        proof {
            assert forall|h: int, j: int|
                0 <= h < self.hashes@.len() && 0 <= j < self.hash_at(h).len() implies {
                    &&& self.valid_raw(#[trigger] self.hash_at(h)[j].0)
                    &&& self.valid_raw(self.hash_at(h)[j].1)
                } by {
                assert(h < old(self).hashes@.len());
                assert(old(self).hash_at(h) == self.hash_at(h));
                old(self).lemma_valid_grows(self, self.hash_at(h)[j].0);
                old(self).lemma_valid_grows(self, self.hash_at(h)[j].1);
            }
            assert forall|h: int| 0 <= h < self.hashes@.len() implies unique_keys(#[trigger] self.hash_at(h)) by {
                if h < old(self).hashes@.len() {
                    assert(old(self).hash_at(h) == self.hash_at(h));
                }
            }
        }
        RawValue { tt: VType::Hash, int: 0, ptr }
    }

    /// Stores `val` under `key` in the hash `hash`.
    pub fn hash_set(&mut self, hash: RawValue, key: RawValue, val: RawValue)
        requires
            old(self).wf(),
            old(self).state != BorrowState::Exclusive,
            hash.tt == VType::Hash,
            hash.ptr < old(self).hashes@.len(),
            old(self).valid_raw(key),
            old(self).valid_raw(val),
        ensures
            final(self).wf(),
            old(self).same_but_hash(final(self), hash.ptr as int),
            final(self).hash_at(hash.ptr as int) == hash_put(old(self).hash_at(hash.ptr as int), key, val),
    {
        let h = hash.ptr;
        let n = self.hashes[h].len();
        let mut i: usize = 0;
        let mut found = false;
        while i < n && !found
            invariant
                0 <= i <= n,
                n == old(self).hash_at(h as int).len(),
                h < old(self).hashes@.len(),
                *self == *old(self),
                found ==> i < n && old(self).hash_at(h as int)[i as int].0 == key,
                forall|j: int| 0 <= j < i ==> old(self).hash_at(h as int)[j].0 != key,
            decreases n - i + (if found { 0int } else { 1int }),
        {
            if self.hashes[h][i].0 == key {
                found = true;
            } else {
                i += 1;
            }
        }
        let ghost s = old(self).hash_at(h as int);
        if found {
            self.hashes[h].set(i, (key, val));
            proof {
                assert(unique_keys(s));
                assert(has_key(s, key));
                let c = choose|c: int| 0 <= c < s.len() && s[c].0 == key;
                assert(c == i);
            }
        } else {
            self.hashes[h].push((key, val));
            proof {
                assert(!has_key(s, key));
            }
        }
        proof {
            assert(forall|g: int| 0 <= g < self.hashes@.len() && g != h ==> #[trigger] self.hash_at(g) == old(self).hash_at(g));
            self.lemma_after_set(old(self), h as int, key, val);
        }
    }

    proof fn lemma_after_set(&self, prev: &Mrb, h: int, key: RawValue, val: RawValue)
        requires
            prev.wf(),
            0 <= h < prev.hashes@.len(),
            prev.valid_raw(key),
            prev.valid_raw(val),
            prev.same_but_hash(self, h),
            self.hash_at(h) == hash_put(prev.hash_at(h), key, val),
        ensures
            self.wf(),
    {
        let s = prev.hash_at(h);
        let t = self.hash_at(h);
        assert(forall|g: int| 0 <= g < self.hashes@.len() && g != h ==> #[trigger] self.hash_at(g) == prev.hash_at(g));
        assert forall|j: int| 0 <= j < t.len() implies prev.valid_raw(#[trigger] t[j].0) && prev.valid_raw(t[j].1) by {
            if j < s.len() && t[j] == s[j] {
                assert(prev.valid_raw(prev.hash_at(h)[j].0));
            }
        }
        assert(unique_keys(t)) by {
            if has_key(s, key) {
                let c = choose|c: int| 0 <= c < s.len() && s[c].0 == key;
                assert forall|i: int, j: int| 0 <= i < j < t.len() implies t[i].0 != t[j].0 by {
                    assert(t[i].0 == s[i].0);
                    assert(t[j].0 == s[j].0);
                }
            }
        }
        assert forall|g: int, j: int|
            0 <= g < self.hashes@.len() && 0 <= j < self.hash_at(g).len() implies {
                &&& self.valid_raw(#[trigger] self.hash_at(g)[j].0)
                &&& self.valid_raw(self.hash_at(g)[j].1)
            } by {
            if g != h {
                assert(self.hash_at(g) == prev.hash_at(g));
            }
        }
        assert forall|g: int| 0 <= g < self.hashes@.len() implies unique_keys(#[trigger] self.hash_at(g)) by {
            if g != h {
                assert(self.hash_at(g) == prev.hash_at(g));
            }
        }
    }
    /// Number of keys of the hash `hash`.
    pub fn hash_size(&self, hash: RawValue) -> (r: usize)
        requires
            self.state != BorrowState::Exclusive,
            hash.tt == VType::Hash,
            hash.ptr < self.hashes@.len(),
        ensures
            r == self.hash_at(hash.ptr as int).len(),
    {
        self.hashes[hash.ptr].len()
    }

    /// The keys of the hash `hash`, in the hash's order.
    pub fn hash_keys(&self, hash: RawValue) -> (r: Vec<RawValue>)
        requires
            self.state != BorrowState::Exclusive,
            hash.tt == VType::Hash,
            hash.ptr < self.hashes@.len(),
        ensures
            r@.len() == self.hash_at(hash.ptr as int).len(),
            forall|i: int| 0 <= i < r@.len() ==> #[trigger] r@[i] == self.hash_at(hash.ptr as int)[i].0,
    {
        let h = hash.ptr;
        let n = self.hashes[h].len();
        let mut keys: Vec<RawValue> = Vec::with_capacity(n);
        let mut i: usize = 0;
        while i < n
            invariant
                0 <= i <= n,
                h < self.hashes@.len(),
                n == self.hash_at(h as int).len(),
                keys@.len() == i,
                forall|j: int| 0 <= j < i ==> #[trigger] keys@[j] == self.hash_at(h as int)[j].0,
            decreases n - i,
        {
            keys.push(self.hashes[h][i].0);
            i += 1;
        }
        keys
    }

    /// The value stored under `key` in the hash `hash`, or nil.
    pub fn hash_get(&self, hash: RawValue, key: RawValue) -> (r: RawValue)
        requires
            self.state != BorrowState::Exclusive,
            hash.tt == VType::Hash,
            hash.ptr < self.hashes@.len(),
        ensures
            ({
                let s = self.hash_at(hash.ptr as int);
                if has_key(s, key) {
                    exists|i: int| 0 <= i < s.len() && s[i].0 == key && r == s[i].1
                } else {
                    r == nil_raw()
                }
            }),
    {
        let h = hash.ptr;
        let n = self.hashes[h].len();
        let mut i: usize = 0;
        let mut found = false;
        while i < n && !found
            invariant
                0 <= i <= n,
                h < self.hashes@.len(),
                n == self.hash_at(h as int).len(),
                found ==> i < n && self.hash_at(h as int)[i as int].0 == key,
                forall|j: int| 0 <= j < i ==> self.hash_at(h as int)[j].0 != key,
            decreases n - i + (if found { 0int } else { 1int }),
        {
            if self.hashes[h][i].0 == key {
                found = true;
            } else {
                i += 1;
            }
        }
        if found {
            self.hashes[h][i].1
        } else {
            RawValue::nil()
        }
    }

    /// Allocates an object of class `class`, without running its initializer.
    fn alloc_object(&mut self, class: usize) -> (r: RawValue)
        requires
            old(self).wf(),
            old(self).state != BorrowState::Exclusive,
            class < old(self).classes@.len(),
        ensures
            final(self).wf(),
            final(self).state == old(self).state,
            final(self).objects@ == old(self).objects@.push(class),
            final(self).hashes == old(self).hashes,
            final(self).classes == old(self).classes,
            final(self).sources == old(self).sources,
            r == object_raw(old(self).objects@.len() as usize),
    {
        let ptr = self.objects.len();
        self.objects.push(class);
        proof {
            assert forall|h: int, j: int|
                0 <= h < self.hashes@.len() && 0 <= j < self.hash_at(h).len() implies {
                    &&& self.valid_raw(#[trigger] self.hash_at(h)[j].0)
                    &&& self.valid_raw(self.hash_at(h)[j].1)
                } by {
                assert(old(self).hash_at(h) == self.hash_at(h));
                old(self).lemma_valid_grows(self, self.hash_at(h)[j].0);
                old(self).lemma_valid_grows(self, self.hash_at(h)[j].1);
            }
            assert forall|h: int| 0 <= h < self.hashes@.len() implies unique_keys(#[trigger] self.hash_at(h)) by {
                assert(old(self).hash_at(h) == self.hash_at(h));
            }
        }
        RawValue { tt: VType::Object, int: 0, ptr }
    }

    /// Runs a host initializer that the runtime calls back into. The
    /// initializer takes and gives back its own borrow of the handle.
    fn run_initializer(&mut self, hook: InitHook)
        requires
            old(self).state == BorrowState::Free,
        ensures
            *final(self) == *old(self),
    {
        match hook {
            InitHook::Nothing => {},
            InitHook::BorrowShared => {
                self.borrow();
                self.release();
            },
            InitHook::BorrowMut => {
                self.borrow_mut();
                self.release_mut();
            },
        }
    }

    /// Constructs an object of a host-defined class and runs its
    /// initializer.
    ///
    /// The exclusive borrow taken to read the class definition is given back
    /// before the runtime is entered, so an initializer that takes the
    /// exclusive borrow itself finds the handle free. The handle is free
    /// again afterwards.
    pub fn new_object(&mut self, class: usize) -> (r: RawValue)
        requires
            old(self).wf(),
            old(self).state == BorrowState::Free,
            class < old(self).classes@.len(),
        ensures
            final(self).wf(),
            final(self).state == BorrowState::Free,
            final(self).objects@ == old(self).objects@.push(class),
            final(self).hashes == old(self).hashes,
            final(self).classes == old(self).classes,
            final(self).sources == old(self).sources,
            r == object_raw(old(self).objects@.len() as usize),
            final(self).valid_raw(r),
    {
        self.borrow_mut();
        let hook = self.classes[class].init;
        self.release_mut();
        let obj = self.alloc_object(class);
        self.run_initializer(hook);
        obj
    }

    /// Defines a class with no initializer. The caller holds the exclusive
    /// borrow.
    pub fn def_class(&mut self, name: &str) -> (r: usize)
        requires
            old(self).wf(),
            old(self).state == BorrowState::Exclusive,
        ensures
            final(self).wf(),
            final(self).state == old(self).state,
            r == old(self).classes@.len(),
            final(self).classes@.len() == old(self).classes@.len() + 1,
            final(self).classes@[r as int].name@ == name@,
            final(self).classes@[r as int].init == InitHook::Nothing,
            forall|c: int| 0 <= c < r ==> #[trigger] final(self).classes@[c] == old(self).classes@[c],
            final(self).hashes == old(self).hashes,
            final(self).objects == old(self).objects,
            final(self).sources == old(self).sources,
    {
        let r = self.classes.len();
        self.classes.push(ClassDef { name: name.to_owned(), init: InitHook::Nothing });
        proof {
            assert forall|h: int, j: int|
                0 <= h < self.hashes@.len() && 0 <= j < self.hash_at(h).len() implies {
                    &&& self.valid_raw(#[trigger] self.hash_at(h)[j].0)
                    &&& self.valid_raw(self.hash_at(h)[j].1)
                } by {
                assert(old(self).hash_at(h) == self.hash_at(h));
                old(self).lemma_valid_grows(self, self.hash_at(h)[j].0);
                old(self).lemma_valid_grows(self, self.hash_at(h)[j].1);
            }
            assert forall|h: int| 0 <= h < self.hashes@.len() implies unique_keys(#[trigger] self.hash_at(h)) by {
                assert(old(self).hash_at(h) == self.hash_at(h));
            }
        }
        r
    }

    /// Gives class `class` a host initializer. The caller holds the exclusive
    /// borrow.
    pub fn set_initializer(&mut self, class: usize, hook: InitHook)
        requires
            old(self).wf(),
            old(self).state == BorrowState::Exclusive,
            class < old(self).classes@.len(),
        ensures
            final(self).wf(),
            final(self).state == old(self).state,
            final(self).classes@.len() == old(self).classes@.len(),
            final(self).classes@[class as int].name == old(self).classes@[class as int].name,
            final(self).classes@[class as int].init == hook,
            forall|c: int| 0 <= c < old(self).classes@.len() && c != class ==> #[trigger] final(self).classes@[c] == old(self).classes@[c],
            final(self).hashes == old(self).hashes,
            final(self).objects == old(self).objects,
            final(self).sources == old(self).sources,
    {
        self.classes[class].init = hook;
        proof {
            assert(self.classes@.len() == old(self).classes@.len());
            assert forall|h: int, j: int|
                0 <= h < self.hashes@.len() && 0 <= j < self.hash_at(h).len() implies {
                    &&& self.valid_raw(#[trigger] self.hash_at(h)[j].0)
                    &&& self.valid_raw(self.hash_at(h)[j].1)
                } by {
                assert(old(self).hash_at(h) == self.hash_at(h));
                old(self).lemma_valid_grows(self, self.hash_at(h)[j].0);
                old(self).lemma_valid_grows(self, self.hash_at(h)[j].1);
            }
            assert forall|h: int| 0 <= h < self.hashes@.len() implies unique_keys(#[trigger] self.hash_at(h)) by {
                assert(old(self).hash_at(h) == self.hash_at(h));
            }
        }
    }

    /// Whether a source file of that name is registered.
    pub fn has_source(&self, name: &str) -> (r: bool)
        ensures
            r == exists|i: int| 0 <= i < self.sources@.len() && #[trigger] self.sources@[i]@ == name@,
    {
        let owned = name.to_owned();
        let n = self.sources.len();
        let mut i: usize = 0;
        while i < n
            invariant
                0 <= i <= n,
                n == self.sources@.len(),
                owned@ == name@,
                forall|j: int| 0 <= j < i ==> #[trigger] self.sources@[j]@ != name@,
            decreases n - i,
        {
            if self.sources[i] == owned {
                assert(self.sources@[i as int]@ == name@);
                return true;
            }
            i += 1;
        }
        false
    }

    /// Registers an interpreted source file to be loaded. A name can be
    /// registered once.
    pub fn def_rb_source_file(&mut self, name: &str) -> (r: Result<(), MrbError>)
        ensures
            old(self).wf() ==> final(self).wf(),
            r is Ok <==> !(exists|i: int| 0 <= i < old(self).sources@.len() && #[trigger] old(self).sources@[i]@ == name@),
            r is Ok ==> final(self).sources@.len() == old(self).sources@.len() + 1
                && final(self).sources@.last()@ == name@
                && forall|i: int| 0 <= i < old(self).sources@.len() ==> #[trigger] final(self).sources@[i] == old(self).sources@[i],
            r is Err ==> final(self).sources == old(self).sources,
            final(self).state == old(self).state,
            final(self).hashes == old(self).hashes,
            final(self).objects == old(self).objects,
            final(self).classes == old(self).classes,
    {
        if self.has_source(name) {
            return Err(MrbError::SourceAlreadyDefined);
        }
        self.sources.push(name.to_owned());
        proof {
            if old(self).wf() {
                old(self).lemma_wf_same_heap(self);
            }
        }
        Ok(())
    }
}

pub open spec fn object_raw(ptr: usize) -> RawValue {
    RawValue { tt: VType::Object, int: 0, ptr }
}

} // verus!
