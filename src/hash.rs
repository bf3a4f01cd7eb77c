//! Conversions between native pair sequences and the runtime's hashes,
//! through a pivot sequence of dynamic (key, value) pairs.
use vstd::prelude::*;
use crate::interp::{hash_put_all, has_key, unique_keys, BorrowState, Mrb, Pairs};
use crate::types::{RawValue, Ruby, Rust, VType};
use crate::native::Native;
use crate::value::{tag, Error, Value};

verus! {

/// The raw pairs behind a sequence of value pairs.
pub open spec fn raw_pairs(s: Seq<(Value, Value)>) -> Pairs {
    s.map_values(|p: (Value, Value)| (p.0.raw, p.1.raw))
}

/// Every value of the pairs is valid in `interp`.
pub open spec fn pairs_valid(interp: &Mrb, s: Pairs) -> bool {
    forall|i: int| 0 <= i < s.len() ==> interp.valid_raw(#[trigger] s[i].0) && interp.valid_raw(s[i].1)
}

pub open spec fn hash_raw(ptr: usize) -> RawValue {
    RawValue { tt: VType::Hash, int: 0, ptr }
}

/// The capacity hint for a hash of `len` pairs: the count where it fits the
/// runtime's integer, zero otherwise.
pub open spec fn capacity_hint(len: usize) -> i64 {
    if len <= i64::MAX {
        len as i64
    } else {
        0
    }
}

/// The native pairs behind a sequence of native pairs.
pub open spec fn native_raw_pairs<K: Native, V: Native>(ps: Seq<(K, V)>) -> Pairs {
    ps.map_values(|p: (K, V)| (K::spec_to_raw(p.0), V::spec_to_raw(p.1)))
}

/// Conversion of a pivot sequence to native pairs, stopping at the first key
/// or value that does not convert.
pub open spec fn native_pairs_conversion<K: Native, V: Native>(s: Pairs) -> Result<Seq<(K, V)>, Error>
    decreases s.len(),
{
    if s.len() == 0 {
        Ok(Seq::empty())
    } else {
        match native_pairs_conversion::<K, V>(s.drop_last()) {
            Err(e) => Err(e),
            Ok(prefix) => match K::spec_from_raw(s.last().0) {
                Err(e) => Err(e),
                Ok(k) => match V::spec_from_raw(s.last().1) {
                    Err(e) => Err(e),
                    Ok(v) => Ok(prefix.push((k, v))),
                },
            },
        }
    }
}

/// The heap of `interp` after a new hash is filled: one more hash, the
/// others as they were.
pub open spec fn added_hash(before: &Mrb, after: &Mrb) -> bool {
    &&& after.wf()
    &&& after.state == before.state
    &&& after.hashes@.len() == before.hashes@.len() + 1
    &&& forall|g: int| 0 <= g < before.hashes@.len() ==> #[trigger] after.hash_at(g) == before.hash_at(g)
    &&& after.objects == before.objects
    &&& after.classes == before.classes
    &&& after.sources == before.sources
}

fn capacity(len: usize) -> (r: i64)
    ensures
        r == capacity_hint(len),
        r >= 0,
{
    if len as u64 <= i64::MAX as u64 {
        len as i64
    } else {
        0
    }
}

impl Value {
    /// Builds a hash from pairs of dynamic values, storing them in order: a
    /// repeated key keeps its first place and takes its last value.
    pub fn from_pairs(interp: &mut Mrb, pairs: Vec<(Value, Value)>) -> (r: Value)
        requires
            old(interp).wf(),
            old(interp).state != BorrowState::Exclusive,
            pairs_valid(old(interp), raw_pairs(pairs@)),
        ensures
            added_hash(old(interp), final(interp)),
            r.raw == hash_raw(old(interp).hashes@.len() as usize),
            final(interp).hash_at(old(interp).hashes@.len() as int) == hash_put_all(Seq::empty(), raw_pairs(pairs@)),
    {
        let ghost ps = raw_pairs(pairs@);
        let hash = interp.hash_new_capa(capacity(pairs.len()));
        let h = hash.ptr;
        let n = pairs.len();
        let mut i: usize = 0;
        while i < n
            invariant
                0 <= i <= n,
                n == pairs@.len(),
                ps == raw_pairs(pairs@),
                hash == hash_raw(h),
                h == old(interp).hashes@.len(),
                old(interp).wf(),
                old(interp).state != BorrowState::Exclusive,
                pairs_valid(old(interp), ps),
                added_hash(old(interp), interp),
                interp.hash_at(h as int) == hash_put_all(Seq::empty(), ps.take(i as int)),
            decreases n - i,
        {
            let (key, val) = pairs[i];
            proof {
                assert(ps[i as int] == (key.raw, val.raw));
                assert(old(interp).valid_raw(ps[i as int].0));
                old(interp).lemma_valid_grows(interp, key.raw);
                old(interp).lemma_valid_grows(interp, val.raw);
            }
            let ghost before = *interp;
            interp.hash_set(hash, key.raw, val.raw);
            proof {
                assert(ps.take(i as int + 1).drop_last() == ps.take(i as int));
                assert forall|g: int| 0 <= g < old(interp).hashes@.len() implies #[trigger] interp.hash_at(g) == old(interp).hash_at(g) by {
                    assert(interp.hash_at(g) == before.hash_at(g));
                }
            }
            i += 1;
        }
        proof {
            assert(ps.take(n as int) == ps);
        }
        Value { raw: hash }
    }

    /// Reads a hash into its pivot sequence of (key, value) pairs, in the
    /// hash's order. A value that is not a hash is refused.
    pub fn try_into_pairs(&self, interp: &Mrb) -> (r: Result<Vec<(Value, Value)>, Error>)
        requires
            interp.wf(),
            interp.state != BorrowState::Exclusive,
            interp.valid_raw(self.raw),
        ensures
            tag(self.raw) == Ruby::Hash ==> r is Ok && raw_pairs(r->Ok_0@) == interp.hash_at(self.raw.ptr as int),
            tag(self.raw) != Ruby::Hash ==> r == Err::<Vec<(Value, Value)>, Error>(Error { from: tag(self.raw), to: Rust::Hash }),
            r is Ok ==> pairs_valid(interp, raw_pairs(r->Ok_0@)),
    {
        match self.ruby_type() {
            Ruby::Hash => {
                let hash = self.raw;
                let size = interp.hash_size(hash);
                let keys = interp.hash_keys(hash);
                let ghost s = interp.hash_at(hash.ptr as int);
                let mut pairs: Vec<(Value, Value)> = Vec::with_capacity(size);
                let mut idx: usize = 0;
                while idx < size
                    invariant
                        0 <= idx <= size,
                        size == s.len(),
                        s == interp.hash_at(hash.ptr as int),
                        hash.tt == VType::Hash,
                        hash.ptr < interp.hashes@.len(),
                        interp.wf(),
                        interp.state != BorrowState::Exclusive,
                        keys@.len() == size,
                        forall|i: int| 0 <= i < size ==> #[trigger] keys@[i] == s[i].0,
                        pairs@.len() == idx,
                        forall|j: int| 0 <= j < idx ==> (#[trigger] pairs@[j]).0.raw == s[j].0 && pairs@[j].1.raw == s[j].1,
                    decreases size - idx,
                {
                    // Every key read from the hash is present in it.
                    let key = keys[idx];
                    let value = interp.hash_get(hash, key);
                    proof {
                        assert(s[idx as int].0 == key);
                        assert(has_key(s, key));
                        assert(unique_keys(s));
                        let i = choose|i: int| 0 <= i < s.len() && s[i].0 == key && value == s[i].1;
                        assert(i == idx);
                        assert(interp.valid_raw(interp.hash_at(hash.ptr as int)[idx as int].0));
                    }
                    pairs.push((Value::new(interp, key), Value::new(interp, value)));
                    idx += 1;
                }
                proof {
                    assert(raw_pairs(pairs@) =~= s);
                }
                Ok(pairs)
            },
            type_tag => Err(Error { from: type_tag, to: Rust::Hash }),
        }
    }


    /// Builds a hash from native pairs, converting each key and value.
    pub fn from_native_pairs<K: Native, V: Native>(interp: &mut Mrb, pairs: Vec<(K, V)>) -> (r: Value)
        requires
            old(interp).wf(),
            old(interp).state != BorrowState::Exclusive,
            pairs_valid(old(interp), native_raw_pairs(pairs@)),
        ensures
            added_hash(old(interp), final(interp)),
            r.raw == hash_raw(old(interp).hashes@.len() as usize),
            final(interp).hash_at(old(interp).hashes@.len() as int) == hash_put_all(Seq::empty(), native_raw_pairs(pairs@)),
    {
        let n = pairs.len();
        let mut out: Vec<(Value, Value)> = Vec::with_capacity(n);
        let mut i: usize = 0;
        while i < n
            invariant
                0 <= i <= n,
                n == pairs@.len(),
                out@.len() == i,
                forall|j: int| 0 <= j < i ==> (#[trigger] out@[j]).0.raw == K::spec_to_raw(pairs@[j].0)
                    && out@[j].1.raw == V::spec_to_raw(pairs@[j].1),
            decreases n - i,
        {
            let (k, v) = pairs[i];
            out.push((k.to_value(), v.to_value()));
            i += 1;
        }
        proof {
            assert(raw_pairs(out@) =~= native_raw_pairs(pairs@));
        }
        Value::from_pairs(interp, out)
    }

    /// Reads a hash into native pairs, in the hash's order. Fails with the
    /// pivot's error, or with the error of the first key or value that does
    /// not convert.
    pub fn try_into_native_pairs<K: Native, V: Native>(&self, interp: &Mrb) -> (r: Result<Vec<(K, V)>, Error>)
        requires
            interp.wf(),
            interp.state != BorrowState::Exclusive,
            interp.valid_raw(self.raw),
        ensures
            tag(self.raw) != Ruby::Hash ==> r == Err::<Vec<(K, V)>, Error>(Error { from: tag(self.raw), to: Rust::Hash }),
            tag(self.raw) == Ruby::Hash ==> match native_pairs_conversion::<K, V>(interp.hash_at(self.raw.ptr as int)) {
                Ok(s) => r is Ok && r->Ok_0@ == s,
                Err(e) => r == Err::<Vec<(K, V)>, Error>(e),
            },
    {
        let pairs = match self.try_into_pairs(interp) {
            Ok(p) => p,
            Err(e) => return Err(e),
        };
        let ghost ps = raw_pairs(pairs@);
        let n = pairs.len();
        let mut out: Vec<(K, V)> = Vec::with_capacity(n);
        let mut i: usize = 0;
        while i < n
            invariant
                0 <= i <= n,
                n == pairs@.len(),
                ps == raw_pairs(pairs@),
                tag(self.raw) == Ruby::Hash,
                ps == interp.hash_at(self.raw.ptr as int),
                pairs_valid(interp, ps),
                native_pairs_conversion::<K, V>(ps.take(i as int)) == Ok::<Seq<(K, V)>, Error>(out@),
            decreases n - i,
        {
            let (key, val) = pairs[i];
            proof {
                assert(ps[i as int] == (key.raw, val.raw));
                assert(ps.take(i as int + 1).drop_last() == ps.take(i as int));
                assert(interp.valid_raw(ps[i as int].0));
            }
            let k = match K::from_value(key) {
                Ok(k) => k,
                Err(e) => {
                    proof {
                        lemma_native_pairs_error_extends::<K, V>(ps, i as int + 1, e);
                    }
                    return Err(e);
                },
            };
            let v = match V::from_value(val) {
                Ok(v) => v,
                Err(e) => {
                    proof {
                        lemma_native_pairs_error_extends::<K, V>(ps, i as int + 1, e);
                    }
                    return Err(e);
                },
            };
            out.push((k, v));
            i += 1;
        }
        proof {
            assert(ps.take(n as int) == ps);
        }
        Ok(out)
    }
}

/// An error met in a prefix is the error of the whole conversion.
proof fn lemma_native_pairs_error_extends<K: Native, V: Native>(s: Pairs, k: int, e: Error)
    requires
        0 <= k <= s.len(),
        native_pairs_conversion::<K, V>(s.take(k)) == Err::<Seq<(K, V)>, Error>(e),
    ensures
        native_pairs_conversion::<K, V>(s) == Err::<Seq<(K, V)>, Error>(e),
    decreases s.len() - k,
{
    if k < s.len() {
        assert(s.take(k + 1).drop_last() == s.take(k));
        lemma_native_pairs_error_extends::<K, V>(s, k + 1, e);
    } else {
        assert(s.take(k) == s);
    }
}

/// Pairs with distinct keys, of any dynamic types, are stored into a fresh
/// hash exactly as given: reading the hash back yields the same pairs in the
/// same order.
pub proof fn lemma_pairs_round_trip(ps: Pairs)
    requires
        unique_keys(ps),
    ensures
        hash_put_all(Seq::empty(), ps) == ps,
    decreases ps.len(),
{
    if ps.len() > 0 {
        let init = ps.drop_last();
        assert(unique_keys(init));
        lemma_pairs_round_trip(init);
        assert(!has_key(init, ps.last().0)) by {
            if has_key(init, ps.last().0) {
                let i = choose|i: int| 0 <= i < init.len() && init[i].0 == ps.last().0;
                assert(ps[i].0 == ps[ps.len() - 1].0);
            }
        }
        assert(init.push(ps.last()) == ps);
    }
}


/// Native pairs with distinct keys, each of which converts back to itself,
/// stored into a fresh hash and read back as native pairs, come back as given
/// and in the same order.
pub proof fn lemma_native_pairs_round_trip<K: Native, V: Native>(ps: Seq<(K, V)>)
    requires
        forall|i: int, j: int| 0 <= i < j < ps.len() ==> ps[i].0 != ps[j].0,
        forall|i: int| 0 <= i < ps.len() ==> K::spec_faithful(#[trigger] ps[i].0) && V::spec_faithful(ps[i].1),
    ensures
        native_pairs_conversion::<K, V>(hash_put_all(Seq::empty(), native_raw_pairs(ps))) == Ok::<Seq<(K, V)>, Error>(ps),
{
    let raw = native_raw_pairs(ps);
    assert(unique_keys(raw)) by {
        assert forall|i: int, j: int| 0 <= i < j < raw.len() implies raw[i].0 != raw[j].0 by {
            K::lemma_round_trip(ps[i].0);
            K::lemma_round_trip(ps[j].0);
        }
    }
    lemma_pairs_round_trip(raw);
    lemma_native_pairs_conversion_of_raw(ps);
}

proof fn lemma_native_pairs_conversion_of_raw<K: Native, V: Native>(ps: Seq<(K, V)>)
    requires
        forall|i: int| 0 <= i < ps.len() ==> K::spec_faithful(#[trigger] ps[i].0) && V::spec_faithful(ps[i].1),
    ensures
        native_pairs_conversion::<K, V>(native_raw_pairs(ps)) == Ok::<Seq<(K, V)>, Error>(ps),
    decreases ps.len(),
{
    if ps.len() > 0 {
        let init = ps.drop_last();
        assert forall|i: int| 0 <= i < init.len() implies K::spec_faithful(#[trigger] init[i].0) && V::spec_faithful(init[i].1) by {
            assert(init[i] == ps[i]);
        }
        lemma_native_pairs_conversion_of_raw(init);
        assert(native_raw_pairs(ps).drop_last() == native_raw_pairs(init));
        assert(K::spec_faithful(ps[ps.len() - 1].0));
        K::lemma_round_trip(ps.last().0);
        V::lemma_round_trip(ps.last().1);
        assert(init.push(ps.last()) == ps);
    } else {
        assert(native_raw_pairs(ps).len() == 0);
        assert(ps == Seq::<(K, V)>::empty());
    }
}

} // verus!
