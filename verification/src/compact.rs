//! The finalization compactor: the pipeline-level barrier step that,
//! once every build/probe contributor has finished (an external
//! guarantee), triggers right/full-join finalization exactly once and
//! forwards cancellation into the shared join state.

use vstd::prelude::*;

use crate::common::JoinHashTable;
use crate::types::Chunk;
use crate::ErrorCode;

verus! {

/// Compacts the accumulated right/full-join batches: holds the engine
/// whose finalization step emits the unmatched-build-row tail.
pub struct RightJoinCompactor {
    pub hash_join_state: JoinHashTable,
}

impl RightJoinCompactor {
    pub fn create(hash_join_state: JoinHashTable) -> (r: RightJoinCompactor)
        ensures
            r.hash_join_state == hash_join_state,
    {
        RightJoinCompactor { hash_join_state }
    }

    pub fn name() -> &'static str {
        "RightJoinCompactor"
    }

    /// Forwards cancellation into the shared join state, so in-progress
    /// finalization aborts and reports nothing further.
    pub fn interrupt(&mut self)
        ensures
            final(self).hash_join_state.hash_join_desc.join_state.interrupted,
            old(self).hash_join_state.wf() ==> final(self).hash_join_state.wf(),
            final(self).hash_join_state.row_space == old(self).hash_join_state.row_space,
            final(self).hash_join_state.probe_schema == old(self).hash_join_state.probe_schema,
            final(self).hash_join_state.hash_join_desc.join_type == old(
                self,
            ).hash_join_state.hash_join_desc.join_type,
            final(self).hash_join_state.hash_join_desc.build_keys == old(
                self,
            ).hash_join_state.hash_join_desc.build_keys,
            final(self).hash_join_state.hash_join_desc.probe_keys == old(
                self,
            ).hash_join_state.hash_join_desc.probe_keys,
            final(self).hash_join_state.hash_join_desc.other_predicate == old(
                self,
            ).hash_join_state.hash_join_desc.other_predicate,
            final(self).hash_join_state.hash_join_desc.join_state.build_indexes == old(
                self,
            ).hash_join_state.hash_join_desc.join_state.build_indexes,
            final(self).hash_join_state.hash_join_desc.join_state.rest_probe_chunks == old(
                self,
            ).hash_join_state.hash_join_desc.join_state.rest_probe_chunks,
            final(self).hash_join_state.hash_join_desc.join_state.rest_build_indexes == old(
                self,
            ).hash_join_state.hash_join_desc.join_state.rest_build_indexes,
            final(self).hash_join_state.hash_join_desc.join_state.validity == old(
                self,
            ).hash_join_state.hash_join_desc.join_state.validity,
    {
        self.hash_join_state.interrupt();
    }

    /// Invoked exactly once, after all upstream contributors signalled
    /// completion (an external guarantee): runs the engine's right/full
    /// finalization and returns the accumulated batches with the
    /// unmatched-build-row tail appended. Under cancellation it returns
    /// nothing.
    pub fn compact_final(&self, chunks: &Vec<Chunk>) -> (r: Result<Vec<Chunk>, ErrorCode>)
        requires
            self.hash_join_state.wf(),
            forall|k: int| 0 <= k < chunks@.len() ==> (#[trigger] chunks@[k]).wf(),
        ensures
            r is Ok,
            self.hash_join_state.hash_join_desc.join_state.interrupted ==> (r->Ok_0)@.len() == 0,
            !self.hash_join_state.hash_join_desc.join_state.interrupted
                ==> self.hash_join_state.right_join_output_ok(chunks@, (r->Ok_0)@),
    {
        self.hash_join_state.right_join_chunks(chunks)
    }
}

} // verus!
