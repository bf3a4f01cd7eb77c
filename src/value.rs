//! Value handles and the scalar conversions between native and dynamic
//! values.
use vstd::prelude::*;
use crate::interp::Mrb;
use crate::types::{bool_raw, classify, fixnum_raw, is_nil_raw, nil_raw, RawValue, Ruby, Rust, VType};

verus! {

/// A failed conversion: the tag of the dynamic value and the native category
/// that was asked for.
#[derive(Clone, Copy, Debug, PartialEq, Eq, Structural)]
pub struct Error {
    pub from: Ruby,
    pub to: Rust,
}

/// A handle on a dynamic value of an interpreter.
///
/// The handle does not own the value: it is only meaningful together with
/// the interpreter that produced it, and never after that interpreter is
/// torn down.
#[derive(Clone, Copy, Debug, PartialEq, Eq, Structural)]
pub struct Value {
    pub raw: RawValue,
}

/// The tag of a classifiable raw value.
pub open spec fn tag(v: RawValue) -> Ruby
    recommends
        classify(v) is Some,
{
    classify(v)->Some_0
}

/// Conversion to a signed native integer.
pub open spec fn int_conversion(v: RawValue) -> Result<i64, Error> {
    if tag(v) == Ruby::Fixnum {
        Ok(v.int)
    } else {
        Err(Error { from: tag(v), to: Rust::SignedInt })
    }
}

/// Conversion to an unsigned native integer: the signed conversion, then a
/// range check. A failure names the value's own tag.
pub open spec fn usize_conversion(v: RawValue) -> Result<usize, Error> {
    if tag(v) == Ruby::Fixnum && 0 <= v.int && v.int <= usize::MAX {
        Ok(v.int as usize)
    } else {
        Err(Error { from: tag(v), to: Rust::UnsignedInt })
    }
}

/// Conversion to a native boolean.
pub open spec fn bool_conversion(v: RawValue) -> Result<bool, Error> {
    if tag(v) == Ruby::Bool {
        Ok(v.tt == VType::True)
    } else {
        Err(Error { from: tag(v), to: Rust::Bool })
    }
}

/// Conversion to an optional signed integer: nil is the absent value.
pub open spec fn option_int_conversion(v: RawValue) -> Result<Option<i64>, Error> {
    if is_nil_raw(v) {
        Ok(None)
    } else {
        match int_conversion(v) {
            Ok(i) => Ok(Some(i)),
            Err(e) => Err(e),
        }
    }
}

pub open spec fn option_raw(v: Option<Value>) -> RawValue {
    match v {
        Some(x) => x.raw,
        None => nil_raw(),
    }
}

impl Value {
    /// Wraps a raw value of `interp`.
    pub fn new(interp: &Mrb, raw: RawValue) -> (r: Value)
        requires
            interp.valid_raw(raw),
        ensures
            r.raw == raw,
    {
        Value { raw }
    }

    /// The raw value.
    pub fn inner(&self) -> (r: RawValue)
        ensures
            r == self.raw,
    {
        self.raw
    }

    /// The value's dynamic tag.
    pub fn ruby_type(&self) -> (r: Ruby)
        requires
            classify(self.raw) is Some,
        ensures
            r == tag(self.raw),
    {
        Ruby::from(self.raw)
    }

    /// A small integer.
    pub fn from_int(i: i64) -> (r: Value)
        ensures
            r.raw == fixnum_raw(i as int),
    {
        Value { raw: RawValue::fixnum(i) }
    }

    pub fn from_u8(i: u8) -> (r: Value)
        ensures
            r.raw == fixnum_raw(i as int),
    {
        Value::from_int(i as i64)
    }

    pub fn from_u16(i: u16) -> (r: Value)
        ensures
            r.raw == fixnum_raw(i as int),
    {
        Value::from_int(i as i64)
    }

    pub fn from_u32(i: u32) -> (r: Value)
        ensures
            r.raw == fixnum_raw(i as int),
    {
        Value::from_int(i as i64)
    }

    pub fn from_i8(i: i8) -> (r: Value)
        ensures
            r.raw == fixnum_raw(i as int),
    {
        Value::from_int(i as i64)
    }

    pub fn from_i16(i: i16) -> (r: Value)
        ensures
            r.raw == fixnum_raw(i as int),
    {
        Value::from_int(i as i64)
    }

    pub fn from_i32(i: i32) -> (r: Value)
        ensures
            r.raw == fixnum_raw(i as int),
    {
        Value::from_int(i as i64)
    }

    /// `true` or `false`.
    pub fn from_bool(b: bool) -> (r: Value)
        ensures
            r.raw == bool_raw(b),
    {
        Value { raw: RawValue::boolean(b) }
    }

    /// `nil`.
    pub fn nil() -> (r: Value)
        ensures
            r.raw == nil_raw(),
    {
        Value { raw: RawValue::nil() }
    }

    /// A present value as itself, an absent one as nil.
    pub fn from_option(v: Option<Value>) -> (r: Value)
        ensures
            r.raw == option_raw(v),
    {
        match v {
            Some(x) => x,
            None => Value::nil(),
        }
    }

    /// The value as a signed native integer.
    pub fn try_into_int(&self) -> (r: Result<i64, Error>)
        requires
            classify(self.raw) is Some,
        ensures
            r == int_conversion(self.raw),
    {
        match self.ruby_type() {
            Ruby::Fixnum => Ok(self.raw.fixnum_to_int()),
            type_tag => Err(Error { from: type_tag, to: Rust::SignedInt }),
        }
    }

    /// The value as an unsigned native integer.
    pub fn try_into_usize(&self) -> (r: Result<usize, Error>)
        requires
            classify(self.raw) is Some,
        ensures
            r == usize_conversion(self.raw),
    {
        match self.try_into_int() {
            Ok(i) => {
                if 0 <= i && (i as u64) <= (usize::MAX as u64) {
                    Ok(i as usize)
                } else {
                    Err(Error { from: Ruby::Fixnum, to: Rust::UnsignedInt })
                }
            },
            Err(e) => Err(Error { from: e.from, to: Rust::UnsignedInt }),
        }
    }

    /// The value as a native boolean.
    pub fn try_into_bool(&self) -> (r: Result<bool, Error>)
        requires
            classify(self.raw) is Some,
        ensures
            r == bool_conversion(self.raw),
    {
        match self.ruby_type() {
            Ruby::Bool => Ok(self.raw.tt == VType::True),
            type_tag => Err(Error { from: type_tag, to: Rust::Bool }),
        }
    }

    /// The value as an optional signed integer.
    pub fn try_into_option_int(&self) -> (r: Result<Option<i64>, Error>)
        requires
            classify(self.raw) is Some,
        ensures
            r == option_int_conversion(self.raw),
    {
        if self.raw.is_nil() {
            Ok(None)
        } else {
            match self.try_into_int() {
                Ok(i) => Ok(Some(i)),
                Err(e) => Err(e),
            }
        }
    }
}

/// Every native integer converts to a small integer and back to itself.
pub proof fn lemma_int_round_trip(i: int)
    requires
        i64::MIN <= i <= i64::MAX,
    ensures
        int_conversion(fixnum_raw(i)) == Ok::<i64, Error>(i as i64),
{
}

/// Every native integer converts to a value tagged as a small integer.
pub proof fn lemma_int_tag(i: int)
    requires
        i64::MIN <= i <= i64::MAX,
    ensures
        classify(fixnum_raw(i)) == Some(Ruby::Fixnum),
{
}

/// A boolean value does not convert to a signed native integer, and the
/// error names both sides.
pub proof fn lemma_bool_is_not_int(b: bool)
    ensures
        int_conversion(bool_raw(b)) == Err::<i64, Error>(Error { from: Ruby::Bool, to: Rust::SignedInt }),
{
}

} // verus!
