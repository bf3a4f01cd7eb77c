//! The closed set of native element types that collections convert to and
//! from: integers, booleans, their optional forms, and value handles, which
//! convert to themselves.
use vstd::prelude::*;
use crate::types::{bool_raw, classify, fixnum_raw, is_nil_raw, nil_raw, RawValue};
use crate::value::{bool_conversion, int_conversion, option_int_conversion, Error, Value};

verus! {

/// A native type with a conversion to a dynamic value, which never fails,
/// and one back, which may.
pub trait Native: Sized + Copy {
    /// The raw value that `x` converts to.
    spec fn spec_to_raw(x: Self) -> RawValue;

    /// The result of converting the raw value `v` to this type.
    spec fn spec_from_raw(v: RawValue) -> Result<Self, Error>;

    /// Whether `x` converts to a value that converts back to `x`.
    spec fn spec_faithful(x: Self) -> bool;

    proof fn lemma_round_trip(x: Self)
        requires
            Self::spec_faithful(x),
        ensures
            Self::spec_from_raw(Self::spec_to_raw(x)) == Ok::<Self, Error>(x),
            classify(Self::spec_to_raw(x)) is Some,
    ;

    fn to_value(self) -> (r: Value)
        ensures
            r.raw == Self::spec_to_raw(self),
    ;

    fn from_value(v: Value) -> (r: Result<Self, Error>)
        requires
            classify(v.raw) is Some,
        ensures
            r == Self::spec_from_raw(v.raw),
    ;
}

impl Native for i64 {
    open spec fn spec_to_raw(x: i64) -> RawValue {
        fixnum_raw(x as int)
    }

    open spec fn spec_from_raw(v: RawValue) -> Result<i64, Error> {
        int_conversion(v)
    }

    open spec fn spec_faithful(x: i64) -> bool {
        true
    }

    proof fn lemma_round_trip(x: i64) {
    }

    fn to_value(self) -> (r: Value) {
        Value::from_int(self)
    }

    fn from_value(v: Value) -> (r: Result<i64, Error>) {
        v.try_into_int()
    }
}

impl Native for bool {
    open spec fn spec_to_raw(x: bool) -> RawValue {
        bool_raw(x)
    }

    open spec fn spec_from_raw(v: RawValue) -> Result<bool, Error> {
        bool_conversion(v)
    }

    open spec fn spec_faithful(x: bool) -> bool {
        true
    }

    proof fn lemma_round_trip(x: bool) {
    }

    fn to_value(self) -> (r: Value) {
        Value::from_bool(self)
    }

    fn from_value(v: Value) -> (r: Result<bool, Error>) {
        v.try_into_bool()
    }
}

/// A value handle converts to itself: the bail-out for collections of mixed
/// types.
impl Native for Value {
    open spec fn spec_to_raw(x: Value) -> RawValue {
        x.raw
    }

    open spec fn spec_from_raw(v: RawValue) -> Result<Value, Error> {
        Ok(Value { raw: v })
    }

    open spec fn spec_faithful(x: Value) -> bool {
        classify(x.raw) is Some
    }

    proof fn lemma_round_trip(x: Value) {
    }

    fn to_value(self) -> (r: Value) {
        self
    }

    fn from_value(v: Value) -> (r: Result<Value, Error>) {
        Ok(v)
    }
}

impl Native for Option<i64> {
    open spec fn spec_to_raw(x: Option<i64>) -> RawValue {
        match x {
            Some(i) => fixnum_raw(i as int),
            None => nil_raw(),
        }
    }

    open spec fn spec_from_raw(v: RawValue) -> Result<Option<i64>, Error> {
        option_int_conversion(v)
    }

    open spec fn spec_faithful(x: Option<i64>) -> bool {
        true
    }

    proof fn lemma_round_trip(x: Option<i64>) {
    }

    fn to_value(self) -> (r: Value) {
        match self {
            Some(i) => Value::from_int(i),
            None => Value::nil(),
        }
    }

    fn from_value(v: Value) -> (r: Result<Option<i64>, Error>) {
        v.try_into_option_int()
    }
}

impl Native for Option<bool> {
    open spec fn spec_to_raw(x: Option<bool>) -> RawValue {
        match x {
            Some(b) => bool_raw(b),
            None => nil_raw(),
        }
    }

    open spec fn spec_from_raw(v: RawValue) -> Result<Option<bool>, Error> {
        if is_nil_raw(v) {
            Ok(None)
        } else {
            match bool_conversion(v) {
                Ok(b) => Ok(Some(b)),
                Err(e) => Err(e),
            }
        }
    }

    open spec fn spec_faithful(x: Option<bool>) -> bool {
        true
    }

    proof fn lemma_round_trip(x: Option<bool>) {
    }

    fn to_value(self) -> (r: Value) {
        match self {
            Some(b) => Value::from_bool(b),
            None => Value::nil(),
        }
    }

    fn from_value(v: Value) -> (r: Result<Option<bool>, Error>) {
        if v.raw.is_nil() {
            Ok(None)
        } else {
            match v.try_into_bool() {
                Ok(b) => Ok(Some(b)),
                Err(e) => Err(e),
            }
        }
    }
}

/// A present handle converts to itself, an absent one to nil; nil converts
/// back to the absent handle.
impl Native for Option<Value> {
    open spec fn spec_to_raw(x: Option<Value>) -> RawValue {
        match x {
            Some(v) => v.raw,
            None => nil_raw(),
        }
    }

    open spec fn spec_from_raw(v: RawValue) -> Result<Option<Value>, Error> {
        if is_nil_raw(v) {
            Ok(None)
        } else {
            Ok(Some(Value { raw: v }))
        }
    }

    open spec fn spec_faithful(x: Option<Value>) -> bool {
        match x {
            Some(v) => classify(v.raw) is Some && !is_nil_raw(v.raw),
            None => true,
        }
    }

    proof fn lemma_round_trip(x: Option<Value>) {
    }

    fn to_value(self) -> (r: Value) {
        Value::from_option(self)
    }

    fn from_value(v: Value) -> (r: Result<Option<Value>, Error>) {
        if v.raw.is_nil() {
            Ok(None)
        } else {
            Ok(Some(v))
        }
    }
}

} // verus!
