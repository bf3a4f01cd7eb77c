//! Type tags of the dynamic runtime and of native values, and the raw value
//! representation that the runtime hands out.
use vstd::prelude::*;

verus! {

/// Native categories named in conversion errors.
#[derive(Clone, Copy, Debug, PartialEq, Eq, Structural)]
pub enum Rust {
    Bool,
    SignedInt,
    UnsignedInt,
    Hash,
}

/// Observable categories of a dynamic value.
#[derive(Clone, Copy, Debug, PartialEq, Eq, Structural)]
pub enum Ruby {
    Bool,
    Class,
    CPointer,
    Exception,
    Fixnum,
    Float,
    Hash,
    Module,
    Nil,
    Object,
    String,
    Symbol,
}

/// The runtime's internal discriminant of a raw value.
#[derive(Clone, Copy, Debug, PartialEq, Eq, Structural)]
pub enum VType {
    False,
    True,
    Fixnum,
    Symbol,
    Undef,
    Float,
    CPtr,
    Object,
    Class,
    Module,
    IClass,
    SClass,
    Proc,
    Array,
    Hash,
    String,
    Range,
    Exception,
    File,
    Env,
    Data,
    Fiber,
    IStruct,
    Break,
    MaxDefine,
}

/// A raw dynamic value: a discriminant, an inline integer payload, and a
/// slot in the interpreter's heap for boxed values.
///
/// `nil` and `false` share the `False` discriminant: `nil` has payload 0,
/// `false` payload 1.
#[derive(Clone, Copy, Debug, PartialEq, Eq, Structural)]
pub struct RawValue {
    pub tt: VType,
    pub int: i64,
    pub ptr: usize,
}

pub open spec fn is_nil_raw(v: RawValue) -> bool {
    v.tt == VType::False && v.int == 0
}

/// The tag of a raw value, or `None` for a discriminant that is not
/// supported by the conversion layer.
pub open spec fn classify(v: RawValue) -> Option<Ruby> {
    if is_nil_raw(v) {
        Some(Ruby::Nil)
    } else {
        match v.tt {
            VType::False | VType::True => Some(Ruby::Bool),
            VType::Class => Some(Ruby::Class),
            VType::CPtr => Some(Ruby::CPointer),
            VType::Exception => Some(Ruby::Exception),
            VType::Fixnum => Some(Ruby::Fixnum),
            VType::Float => Some(Ruby::Float),
            VType::Hash => Some(Ruby::Hash),
            VType::Module => Some(Ruby::Module),
            VType::Object => Some(Ruby::Object),
            VType::String => Some(Ruby::String),
            VType::Symbol => Some(Ruby::Symbol),
            _ => None,
        }
    }
}

pub open spec fn fixnum_raw(i: int) -> RawValue {
    RawValue { tt: VType::Fixnum, int: i as i64, ptr: 0 }
}

pub open spec fn nil_raw() -> RawValue {
    RawValue { tt: VType::False, int: 0, ptr: 0 }
}

pub open spec fn bool_raw(b: bool) -> RawValue {
    if b {
        RawValue { tt: VType::True, int: 1, ptr: 0 }
    } else {
        RawValue { tt: VType::False, int: 1, ptr: 0 }
    }
}

impl RawValue {
    /// The runtime's nil predicate.
    pub fn is_nil(&self) -> (r: bool)
        ensures
            r == is_nil_raw(*self),
    {
        self.tt == VType::False && self.int == 0
    }

    /// A small integer.
    pub fn fixnum(i: i64) -> (r: RawValue)
        ensures
            r == fixnum_raw(i as int),
    {
        RawValue { tt: VType::Fixnum, int: i, ptr: 0 }
    }

    /// The value of a small integer.
    pub fn fixnum_to_int(&self) -> (r: i64)
        requires
            self.tt == VType::Fixnum,
        ensures
            r == self.int,
    {
        self.int
    }

    pub fn nil() -> (r: RawValue)
        ensures
            r == nil_raw(),
    {
        RawValue { tt: VType::False, int: 0, ptr: 0 }
    }

    pub fn boolean(b: bool) -> (r: RawValue)
        ensures
            r == bool_raw(b),
    {
        if b {
            RawValue { tt: VType::True, int: 1, ptr: 0 }
        } else {
            RawValue { tt: VType::False, int: 1, ptr: 0 }
        }
    }
}

impl Ruby {
    /// Classifies a raw value. `nil` is told apart from `false` before the
    /// discriminant is read; discriminants without a tag are not accepted.
    pub fn from(value: RawValue) -> (r: Ruby)
        requires
            classify(value) is Some,
        ensures
            classify(value) == Some(r),
    {
        if value.is_nil() {
            return Ruby::Nil;
        }
        match value.tt {
            VType::False | VType::True => Ruby::Bool,
            VType::Class => Ruby::Class,
            VType::CPtr => Ruby::CPointer,
            VType::Exception => Ruby::Exception,
            VType::Fixnum => Ruby::Fixnum,
            VType::Float => Ruby::Float,
            VType::Hash => Ruby::Hash,
            VType::Module => Ruby::Module,
            VType::Object => Ruby::Object,
            VType::String => Ruby::String,
            _ => Ruby::Symbol,
        }
    }
}

} // verus!
