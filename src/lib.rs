//! The value layer of an embedded mruby interpreter, modelled and verified:
//! type tags, value handles, an interpreter handle with a checked borrow
//! discipline, and the conversions between native and dynamic values.
pub mod types;
pub mod interp;
pub mod value;
pub mod native;
pub mod hash;
pub mod inspect;
pub mod set;
pub mod matchdata;
