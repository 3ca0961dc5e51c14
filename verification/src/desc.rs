//! Join descriptors: the join-type tag, three-valued match markers, row
//! locators into the build-side store, and the shared state mutated while
//! probing.

use vstd::prelude::*;

use crate::expr::Expr;
use crate::types::Chunk;

verus! {

/// The join variant, consulted at every join-type-specific decision point.
#[derive(Clone, Copy, Debug, PartialEq, Eq, Structural)]
pub enum JoinType {
    Inner,
    Left,
    Single,
    Right,
    Full,
    Semi,
    Anti,
    Mark,
}

/// Tri-state match status: `True` (matched, predicate held), `False`
/// (no match, or the residual predicate failed), `Null` (indeterminate
/// because a null operand entered the key or predicate).
#[derive(Clone, Copy, Debug, PartialEq, Eq, Structural)]
pub enum MarkerKind {
    True,
    False,
    Null,
}

/// A non-owning locator of one build-side row: which stored batch, and
/// which row within it, optionally tagged with its match status.
#[derive(Clone, Copy, Debug)]
pub struct RowPtr {
    pub chunk_index: usize,
    pub row_index: usize,
    pub marker: Option<MarkerKind>,
}

impl RowPtr {
    pub fn new(chunk_index: usize, row_index: usize) -> (r: RowPtr)
        ensures
            r.chunk_index == chunk_index,
            r.row_index == row_index,
            r.marker is None,
    {
        RowPtr { chunk_index, row_index, marker: Option::None }
    }
}

/// Shared coordination state mutated during probing and read at
/// finalization: matched build rows (for right/full coverage), deferred
/// probe batches with their matched build rows (for residual-predicate
/// evaluation), the accumulated null-extension bitmap, and the
/// cancellation flag.
pub struct JoinState {
    pub build_indexes: Vec<RowPtr>,
    pub rest_probe_chunks: Vec<Chunk>,
    pub rest_build_indexes: Vec<RowPtr>,
    pub validity: Vec<bool>,
    pub interrupted: bool,
}

impl JoinState {
    pub fn new() -> (r: JoinState)
        ensures
            r.build_indexes@.len() == 0,
            r.rest_probe_chunks@.len() == 0,
            r.rest_build_indexes@.len() == 0,
            r.validity@.len() == 0,
            !r.interrupted,
    {
        JoinState {
            build_indexes: Vec::new(),
            rest_probe_chunks: Vec::new(),
            rest_build_indexes: Vec::new(),
            validity: Vec::new(),
            interrupted: false,
        }
    }
}

/// Static description of one join: its type, which probe/build columns
/// form the equality key, the residual (non-equality) predicate if any,
/// and the shared probing state.
pub struct HashJoinDesc {
    pub join_type: JoinType,
    pub build_keys: Vec<usize>,
    pub probe_keys: Vec<usize>,
    pub other_predicate: Option<Expr>,
    pub join_state: JoinState,
}

} // verus!
