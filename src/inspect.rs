//! Text forms of values: `to_s` of scalars and the `inspect` form that a
//! hash of scalars prints as.
use vstd::prelude::*;
use crate::interp::{Mrb, Pairs};
use crate::types::{is_nil_raw, RawValue, VType};
use crate::value::Value;

verus! {

pub open spec fn digit_char(d: nat) -> char {
    if d == 0 { '0' }
    else if d == 1 { '1' }
    else if d == 2 { '2' }
    else if d == 3 { '3' }
    else if d == 4 { '4' }
    else if d == 5 { '5' }
    else if d == 6 { '6' }
    else if d == 7 { '7' }
    else if d == 8 { '8' }
    else { '9' }
}

/// Decimal digits of `n`, most significant first.
pub open spec fn digits(n: nat) -> Seq<char>
    decreases n,
{
    if n < 10 {
        seq![digit_char(n)]
    } else {
        digits(n / 10).push(digit_char(n % 10))
    }
}

pub open spec fn int_text(i: int) -> Seq<char> {
    if i < 0 {
        seq!['-'] + digits((-i) as nat)
    } else {
        digits(i as nat)
    }
}

/// A small integer, a boolean or nil.
pub open spec fn is_scalar(v: RawValue) -> bool {
    v.tt == VType::Fixnum || v.tt == VType::True || v.tt == VType::False
}

/// `inspect` of a scalar.
pub open spec fn scalar_text(v: RawValue) -> Seq<char> {
    if is_nil_raw(v) {
        seq!['n', 'i', 'l']
    } else if v.tt == VType::True {
        seq!['t', 'r', 'u', 'e']
    } else if v.tt == VType::False {
        seq!['f', 'a', 'l', 's', 'e']
    } else {
        int_text(v.int as int)
    }
}

pub open spec fn entry_text(p: (RawValue, RawValue)) -> Seq<char> {
    scalar_text(p.0) + seq!['=', '>'] + scalar_text(p.1)
}

/// The entries of a hash, separated by a comma and a space.
pub open spec fn entries_text(s: Pairs) -> Seq<char>
    decreases s.len(),
{
    if s.len() == 0 {
        Seq::empty()
    } else if s.len() == 1 {
        entry_text(s[0])
    } else {
        entries_text(s.drop_last()) + seq![',', ' '] + entry_text(s.last())
    }
}

pub open spec fn hash_text(s: Pairs) -> Seq<char> {
    seq!['{'] + entries_text(s) + seq!['}']
}

/// A value that `to_s` can print: a scalar, or a hash of scalars.
pub open spec fn printable(interp: &Mrb, v: RawValue) -> bool {
    ||| is_scalar(v)
    ||| (v.tt == VType::Hash && v.ptr < interp.hashes@.len() && forall|j: int|
        0 <= j < interp.hash_at(v.ptr as int).len() ==> is_scalar(#[trigger] interp.hash_at(v.ptr as int)[j].0)
            && is_scalar(interp.hash_at(v.ptr as int)[j].1))
}

/// `to_s`: nil prints as the empty string, other scalars as their
/// `inspect` form, a hash as its `inspect` form.
pub open spec fn to_s_text(interp: &Mrb, v: RawValue) -> Seq<char> {
    if v.tt == VType::Hash {
        hash_text(interp.hash_at(v.ptr as int))
    } else if is_nil_raw(v) {
        Seq::empty()
    } else {
        scalar_text(v)
    }
}

fn digit_str(d: u64) -> (r: &'static str)
    requires
        d < 10,
    ensures
        r@ == seq![digit_char(d as nat)],
{
    proof {
        reveal_strlit("0");
        reveal_strlit("1");
        reveal_strlit("2");
        reveal_strlit("3");
        reveal_strlit("4");
        reveal_strlit("5");
        reveal_strlit("6");
        reveal_strlit("7");
        reveal_strlit("8");
        reveal_strlit("9");
    }
    if d == 0 { "0" }
    else if d == 1 { "1" }
    else if d == 2 { "2" }
    else if d == 3 { "3" }
    else if d == 4 { "4" }
    else if d == 5 { "5" }
    else if d == 6 { "6" }
    else if d == 7 { "7" }
    else if d == 8 { "8" }
    else { "9" }
}

fn push_digits(s: &mut String, n: u64)
    ensures
        final(s)@ == old(s)@ + digits(n as nat),
    decreases n,
{
    let ghost start = old(s)@;
    if n >= 10 {
        push_digits(s, n / 10);
    }
    s.append(digit_str(n % 10));
    proof {
        if n >= 10 {
            assert(start + digits(n as nat) =~= start + digits((n / 10) as nat) + seq![digit_char((n % 10) as nat)]);
        } else {
            assert(digits(n as nat) == seq![digit_char((n % 10) as nat)]);
        }
    }
}

fn push_int(s: &mut String, i: i64)
    ensures
        final(s)@ == old(s)@ + int_text(i as int),
{
    if i < 0 {
        proof {
            reveal_strlit("-");
        }
        let ghost start = old(s)@;
        s.append("-");
        let m: u64 = ((-(i + 1)) as u64) + 1;
        assert(m as int == -(i as int));
        push_digits(s, m);
        assert(final(s)@ =~= start + int_text(i as int)) by {
            assert(s@ == start + seq!['-'] + digits(m as nat));
        }
    } else {
        push_digits(s, i as u64);
    }
}

fn push_scalar(s: &mut String, v: RawValue)
    requires
        is_scalar(v),
    ensures
        final(s)@ == old(s)@ + scalar_text(v),
{
    proof {
        reveal_strlit("nil");
        reveal_strlit("true");
        reveal_strlit("false");
    }
    if v.is_nil() {
        s.append("nil");
    } else if v.tt == VType::True {
        s.append("true");
    } else if v.tt == VType::False {
        s.append("false");
    } else {
        push_int(s, v.int);
    }
}

impl Value {
    /// The value as text: a scalar as `to_s` prints it, a hash of scalars
    /// in its `inspect` form (`{1=>2, 7=>8}`).
    pub fn to_s(&self, interp: &Mrb) -> (r: String)
        requires
            printable(interp, self.raw),
        ensures
            r@ == to_s_text(interp, self.raw),
    {
        let v = self.raw;
        let mut s = String::new();
        if v.tt == VType::Hash {
            proof {
                reveal_strlit("{");
                reveal_strlit("}");
                reveal_strlit("=>");
                reveal_strlit(", ");
            }
            let ghost es = interp.hash_at(v.ptr as int);
            s.append("{");
            let n = interp.hashes[v.ptr].len();
            let mut i: usize = 0;
            while i < n
                invariant
                    0 <= i <= n,
                    v.ptr < interp.hashes@.len(),
                    es == interp.hash_at(v.ptr as int),
                    n == es.len(),
                    printable(interp, v),
                    v.tt == VType::Hash,
                    s@ == seq!['{'] + entries_text(es.take(i as int)),
                decreases n - i,
            {
                let (key, val) = interp.hashes[v.ptr][i];
                let ghost before = s@;
                proof {
                    reveal_strlit("=>");
                    reveal_strlit(", ");
                }
                if i > 0 {
                    s.append(", ");
                }
                let ghost sep = s@;
                assert(i > 0 ==> sep =~= before + seq![',', ' ']);
                assert(i == 0 ==> sep == before);
                assert(is_scalar(es[i as int].0) && is_scalar(es[i as int].1));
                push_scalar(&mut s, key);
                s.append("=>");
                push_scalar(&mut s, val);
                assert(s@ =~= sep + scalar_text(key) + seq!['=', '>'] + scalar_text(val));
                assert(s@ =~= sep + entry_text((key, val)));
                proof {
                    let t = es.take(i as int + 1);
                    assert(t.drop_last() == es.take(i as int));
                    assert(t.last() == (key, val));
                    if i > 0 {
                        assert(s@ =~= seq!['{'] + entries_text(t));
                    } else {
                        assert(es.take(0) =~= Seq::<(RawValue, RawValue)>::empty());
                        assert(s@ =~= seq!['{'] + entries_text(t));
                    }
                }
                i += 1;
            }
            s.append("}");
            proof {
                assert(es.take(n as int) == es);
                assert(s@ =~= hash_text(es));
            }
        } else if !v.is_nil() {
            push_scalar(&mut s, v);
            proof {
                assert(s@ =~= scalar_text(v));
            }
        }
        s
    }
}

} // verus!
