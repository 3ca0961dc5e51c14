//! Vectorized hash-join execution core: build-side row storage with a
//! key index, probe/match logic with three-valued match tracking,
//! null-extension for outer joins, and right/full-join finalization.

use vstd::prelude::*;

pub mod common;
pub mod compact;
pub mod desc;
pub mod expr;
pub mod probe;
pub mod row_space;
pub mod types;

verus! {

/// Error kinds surfaced by the join engine: a key or predicate expression
/// that cannot be evaluated over a batch, or a broken internal shape
/// invariant (e.g. a non-boolean predicate result).
#[derive(Clone, Copy, Debug, PartialEq, Eq, Structural)]
pub enum ErrorCode {
    Evaluation,
    Internal,
}

} // verus!
