//! Error taxonomy of the engine.

use vstd::prelude::*;

verus! {

/// The engine's caller-visible failure conditions.
///
/// `InvalidTile` and `ParseError` are expected, recoverable rejections of
/// bad input.  `InternalConsistency` marks a violated search invariant;
/// the verified entry points prove that they never return it.
#[derive(Debug, Clone, Copy, PartialEq, Eq, Structural)]
pub enum MjError {
    InvalidTile,
    ParseError,
    InternalConsistency,
}

} // verus!
