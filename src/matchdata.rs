//! Outcomes of `MatchData` accessors.
use vstd::prelude::*;

verus! {

/// Why a `MatchData` accessor gave no value: the receiver could not be read
/// (`Fatal`), or the pattern did not match (`NoMatch`).
#[derive(Clone, Copy, Debug, PartialEq, Eq, Hash, Structural)]
pub enum Error {
    Fatal,
    NoMatch,
}

} // verus!
