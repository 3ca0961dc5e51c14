//! The per-probe-batch matching algorithm: for each probe row, looks its
//! key up in the build-side index (a key with a null component never
//! matches), merges each candidate pair into one output batch,
//! null-extends unmatched probe rows for left joins, and records matched
//! build rows for right/full coverage. A residual predicate runs in a
//! separate pass over the merged batch (`get_other_filters` yields the
//! pass bitmap, `filter_chunk` applies it).

use vstd::prelude::*;

use crate::common::take_rows;
use crate::common::JoinHashTable;
use crate::desc::JoinType;
use crate::desc::RowPtr;
use crate::row_space::key_nonnull;
use crate::row_space::key_view;
use crate::types::Chunk;
use crate::types::ChunkEntry;
use crate::types::Scalar;
use crate::types::ScalarV;
use crate::types::Value;
use crate::ErrorCode;

verus! {

impl JoinHashTable {
    /// The probe-side key tuple of row `i`.
    pub open spec fn probe_key_of(&self, probe: Chunk, i: int) -> Seq<ScalarV> {
        Seq::new(
            self.hash_join_desc.probe_keys@.len(),
            |t: int| probe.cell(self.hash_join_desc.probe_keys@[t] as int, i),
        )
    }

    /// The build rows the index yields for a key (empty when absent).
    pub open spec fn lookup_ptrs(&self, k: Seq<ScalarV>) -> Seq<RowPtr> {
        if exists|e: int|
            0 <= e < self.row_space.index@.len() && key_view(
                (#[trigger] self.row_space.index@[e]).key@,
            ) == k {
            let e = choose|e: int|
                0 <= e < self.row_space.index@.len() && key_view(
                    (#[trigger] self.row_space.index@[e]).key@,
                ) == k;
            self.row_space.index@[e].ptrs@
        } else {
            Seq::empty()
        }
    }

    /// The matches of probe row `i`: nothing when its key has a null
    /// component.
    pub open spec fn row_matches(&self, probe: Chunk, i: int) -> Seq<RowPtr> {
        if key_nonnull(self.probe_key_of(probe, i)) {
            self.lookup_ptrs(self.probe_key_of(probe, i))
        } else {
            Seq::empty()
        }
    }

    /// All (probe row, build row) equality matches of the first `i` probe
    /// rows, in probe-row-then-arrival order.
    pub open spec fn pair_seq(&self, probe: Chunk, i: int) -> Seq<(int, RowPtr)>
        decreases i when 0 <= i
    {
        if i <= 0 {
            Seq::empty()
        } else {
            self.pair_seq(probe, i - 1) + self.row_matches(probe, i - 1).map_values(
                |p: RowPtr| ((i - 1) as int, p),
            )
        }
    }

    /// The probe rows among the first `i` that matched nothing (left
    /// joins null-extend exactly these).
    pub open spec fn unmatched_seq(&self, probe: Chunk, i: int) -> Seq<int>
        decreases i when 0 <= i
    {
        if i <= 0 {
            Seq::empty()
        } else if self.row_matches(probe, i - 1).len() == 0 {
            self.unmatched_seq(probe, i - 1).push(i - 1)
        } else {
            self.unmatched_seq(probe, i - 1)
        }
    }

    /// Every probe key column index is in range for the batch.
    pub open spec fn probe_keys_ok(&self, probe: Chunk) -> bool {
        forall|t: int| 0 <= t < self.hash_join_desc.probe_keys@.len()
            ==> (#[trigger] self.hash_join_desc.probe_keys@[t]) < probe.num_columns()
    }

    /// The join shapes this probe step handles directly: equality
    /// matching for inner, left, right and full joins. A residual
    /// predicate is evaluated in a separate pass over the merged batch.
    pub open spec fn probe_supported(&self) -> bool {
        match self.hash_join_desc.join_type {
            JoinType::Inner | JoinType::Left | JoinType::Right | JoinType::Full =>
                self.hash_join_desc.other_predicate is None,
            _ => false,
        }
    }

    /// Probes one batch against the build-side index. The first output
    /// batch merges every (probe row, build row) key-equal pair, probe
    /// columns then build columns, in probe order; a probe key with a
    /// null component matches nothing. A left join adds a second batch
    /// holding each unmatched probe row once, with every build column
    /// null. A right/full join records every matched build row in the
    /// shared state for later coverage. Under cancellation nothing is
    /// produced.
    pub fn probe_chunk(&mut self, probe: &Chunk) -> (r: Result<Vec<Chunk>, ErrorCode>)
        requires
            old(self).wf(),
            probe.wf(),
            probe.num_columns() == old(self).probe_schema@.len(),
            forall|c: int, i: int|
                0 <= c < old(self).probe_schema@.len() && 0 <= i < probe.num_rows
                    ==> crate::types::conforms(
                        #[trigger] probe.cell(c, i),
                        old(self).probe_schema@[c],
                    ),
        ensures
            final(self).wf(),
            final(self).row_space == old(self).row_space,
            final(self).probe_schema == old(self).probe_schema,
            final(self).hash_join_desc.join_type == old(self).hash_join_desc.join_type,
            old(self).hash_join_desc.join_state.interrupted ==> r is Ok
                && (r->Ok_0)@.len() == 0 && *final(self) == *old(self),
            !old(self).hash_join_desc.join_state.interrupted ==> {
                &&& (r is Ok <==> old(self).probe_supported() && old(self).probe_keys_ok(*probe))
                &&& r is Err ==> *final(self) == *old(self) && (if old(self).probe_supported() {
                    r->Err_0 == ErrorCode::Evaluation
                } else {
                    r->Err_0 == ErrorCode::Internal
                })
            },
            (!old(self).hash_join_desc.join_state.interrupted && r is Ok) ==> {
                let pairs = old(self).pair_seq(*probe, probe.num_rows as int);
                let pn = old(self).probe_schema@.len() as int;
                let bn = old(self).row_space.schema@.len() as int;
                &&& (r->Ok_0)@.len() == (if old(self).hash_join_desc.join_type
                    == JoinType::Left {
                    2int
                } else {
                    1int
                })
                &&& (r->Ok_0)@[0].wf()
                &&& (r->Ok_0)@[0].num_rows == pairs.len()
                &&& (r->Ok_0)@[0].num_columns() == pn + bn
                &&& forall|c: int, m: int| 0 <= c < pn && 0 <= m < pairs.len()
                    ==> #[trigger] (r->Ok_0)@[0].cell(c, m) == probe.cell(c, pairs[m].0)
                &&& forall|c: int, m: int| 0 <= c < bn && 0 <= m < pairs.len()
                    ==> #[trigger] (r->Ok_0)@[0].cell(pn + c, m) == old(
                        self,
                    ).row_space.cell_of(pairs[m].1, c)
                &&& (old(self).hash_join_desc.join_type == JoinType::Left ==> {
                    let un = old(self).unmatched_seq(*probe, probe.num_rows as int);
                    &&& (r->Ok_0)@[1].wf()
                    &&& (r->Ok_0)@[1].num_rows == un.len()
                    &&& (r->Ok_0)@[1].num_columns() == pn + bn
                    &&& forall|c: int, m: int| 0 <= c < pn && 0 <= m < un.len()
                        ==> #[trigger] (r->Ok_0)@[1].cell(c, m) == probe.cell(c, un[m])
                    &&& forall|c: int, m: int| 0 <= c < bn && 0 <= m < un.len()
                        ==> #[trigger] (r->Ok_0)@[1].cell(pn + c, m) == ScalarV::Null
                })
                &&& (match old(self).hash_join_desc.join_type {
                    JoinType::Right | JoinType::Full => {
                        let old_bi = old(self).hash_join_desc.join_state.build_indexes@;
                        let new_bi = final(self).hash_join_desc.join_state.build_indexes@;
                        &&& new_bi.len() == old_bi.len() + pairs.len()
                        &&& forall|t: int| 0 <= t < old_bi.len()
                            ==> #[trigger] new_bi[t] == old_bi[t]
                        &&& forall|t: int| 0 <= t < pairs.len()
                            ==> #[trigger] new_bi[old_bi.len() + t] == pairs[t].1
                    },
                    _ => final(self).hash_join_desc.join_state == old(
                        self,
                    ).hash_join_desc.join_state,
                })
            },
    {
        if self.hash_join_desc.join_state.interrupted {
            return Ok(Vec::new());
        }
        let jt = self.hash_join_desc.join_type;
        let supported = match jt {
            JoinType::Inner | JoinType::Left | JoinType::Right | JoinType::Full => matches!(
                self.hash_join_desc.other_predicate,
                Option::None
            ),
            _ => false,
        };
        if !supported {
            return Err(ErrorCode::Internal);
        }
        let mut t: usize = 0;
        while t < self.hash_join_desc.probe_keys.len()
            invariant
                *self == *old(self),
                self.wf(),
                self.probe_supported(),
                !self.hash_join_desc.join_state.interrupted,
                probe.num_columns() == self.probe_schema@.len(),
                t <= self.hash_join_desc.probe_keys@.len(),
                forall|t2: int| 0 <= t2 < t
                    ==> (#[trigger] self.hash_join_desc.probe_keys@[t2]) < probe.num_columns(),
            decreases self.hash_join_desc.probe_keys@.len() - t,
        {
            if self.hash_join_desc.probe_keys[t] >= probe.columns.len() {
                assert(!self.probe_keys_ok(*probe));
                return Err(ErrorCode::Evaluation);
            }
            t = t + 1;
        }
        assert(self.probe_keys_ok(*probe));

        let is_left = matches!(jt, JoinType::Left);
        let mut probe_rows: Vec<usize> = Vec::new();
        let mut build_ptrs: Vec<RowPtr> = Vec::new();
        let mut unmatched_rows: Vec<usize> = Vec::new();
        let mut i: usize = 0;
        while i < probe.num_rows
            invariant
                *self == *old(self),
                self.wf(),
                self.probe_supported(),
                !self.hash_join_desc.join_state.interrupted,
                probe.wf(),
                probe.num_columns() == self.probe_schema@.len(),
                forall|c: int, i2: int|
                    0 <= c < self.probe_schema@.len() && 0 <= i2 < probe.num_rows
                        ==> crate::types::conforms(
                            #[trigger] probe.cell(c, i2),
                            self.probe_schema@[c],
                        ),
                self.probe_keys_ok(*probe),
                is_left == (self.hash_join_desc.join_type == JoinType::Left),
                i <= probe.num_rows,
                probe_rows@.len() == build_ptrs@.len(),
                self.pair_seq(*probe, i as int).len() == build_ptrs@.len(),
                forall|m: int| 0 <= m < build_ptrs@.len()
                    ==> #[trigger] self.pair_seq(*probe, i as int)[m] == (
                    probe_rows@[m] as int,
                    build_ptrs@[m],
                ),
                forall|m: int| 0 <= m < probe_rows@.len()
                    ==> (#[trigger] probe_rows@[m]) < probe.num_rows,
                self.row_space.ptrs_valid(build_ptrs@),
                is_left ==> unmatched_rows@.map_values(|x: usize| x as int)
                    == self.unmatched_seq(*probe, i as int),
                forall|m: int| 0 <= m < unmatched_rows@.len()
                    ==> (#[trigger] unmatched_rows@[m]) < probe.num_rows,
            decreases probe.num_rows - i,
        {
            let mut key: Vec<Scalar> = Vec::new();
            let mut t: usize = 0;
            while t < self.hash_join_desc.probe_keys.len()
                invariant
                    probe.wf(),
                    probe.num_columns() == self.probe_schema@.len(),
                    self.probe_keys_ok(*probe),
                    i < probe.num_rows,
                    t <= self.hash_join_desc.probe_keys@.len(),
                    key@.len() == t,
                    forall|t2: int| 0 <= t2 < t
                        ==> (#[trigger] key@[t2])@ == probe.cell(
                            self.hash_join_desc.probe_keys@[t2] as int,
                            i as int,
                        ),
                decreases self.hash_join_desc.probe_keys@.len() - t,
            {
                let idx = self.hash_join_desc.probe_keys[t];
                assert(probe.columns@[idx as int].wf(probe.num_rows as nat));
                key.push(probe.columns[idx].scalar_at(i));
                t = t + 1;
            }
            assert(key_view(key@) =~= self.probe_key_of(*probe, i as int));
            let ghost old_pairs = self.pair_seq(*probe, i as int);
            let ghost old_un = unmatched_rows@;
            let mut matched_any = false;
            if !crate::row_space::key_has_null(&key) {
                let looked = self.row_space.entry(&key);
                match looked {
                    Option::Some(v) => {
                        proof {
                            let e1 = choose|e1: int|
                                0 <= e1 < self.row_space.index@.len() && key_view(
                                    (#[trigger] self.row_space.index@[e1]).key@,
                                ) == key_view(key@) && v@ == self.row_space.index@[e1].ptrs@;
                            let e2 = choose|e2: int|
                                0 <= e2 < self.row_space.index@.len() && key_view(
                                    (#[trigger] self.row_space.index@[e2]).key@,
                                ) == key_view(key@);
                            assert(e1 == e2);
                            assert(v@ == self.lookup_ptrs(key_view(key@)));
                            assert(self.row_matches(*probe, i as int) == v@);
                        }
                        let mut m: usize = 0;
                        while m < v.len()
                            invariant
                                m <= v@.len(),
                                probe_rows@.len() == build_ptrs@.len(),
                                i < probe.num_rows,
                                build_ptrs@.len() == old_pairs.len() + m,
                                forall|m2: int| 0 <= m2 < old_pairs.len()
                                    ==> #[trigger] old_pairs[m2] == (
                                    probe_rows@[m2] as int,
                                    build_ptrs@[m2],
                                ),
                                forall|m2: int| 0 <= m2 < m
                                    ==> build_ptrs@[old_pairs.len() + m2] == v@[m2]
                                        && probe_rows@[old_pairs.len() + m2] == i,
                                forall|m2: int| 0 <= m2 < probe_rows@.len()
                                    ==> (#[trigger] probe_rows@[m2]) < probe.num_rows,
                                self.row_space.ptrs_valid(build_ptrs@),
                                self.row_space.ptrs_valid(v@),
                            decreases v@.len() - m,
                        {
                            let ghost bp_old = build_ptrs@;
                            let ghost pr_old = probe_rows@;
                            build_ptrs.push(v[m]);
                            probe_rows.push(i);
                            proof {
                                assert(build_ptrs@ == bp_old.push(v@[m as int]));
                                assert(probe_rows@ == pr_old.push(i));
                                assert forall|m2: int| 0 <= m2 < m + 1
                                    implies build_ptrs@[old_pairs.len() + m2] == v@[m2]
                                        && probe_rows@[old_pairs.len() + m2] == i by {
                                    if m2 < m {
                                        assert(build_ptrs@[old_pairs.len() + m2] == bp_old[
                                            old_pairs.len() + m2]);
                                        assert(probe_rows@[old_pairs.len() + m2] == pr_old[
                                            old_pairs.len() + m2]);
                                    } else {
                                        assert(build_ptrs@[old_pairs.len() + m2]
                                            == v@[m as int]);
                                    }
                                }
                            }
                            m = m + 1;
                        }
                        if v.len() > 0 {
                            matched_any = true;
                        }
                    },
                    Option::None => {
                        proof {
                            assert(self.row_matches(*probe, i as int) =~= Seq::<RowPtr>::empty());
                        }
                    },
                }
            }
            if is_left && !matched_any {
                unmatched_rows.push(i);
            }
            proof {
                let rm = self.row_matches(*probe, i as int);
                assert(self.pair_seq(*probe, i as int + 1) == old_pairs + rm.map_values(
                    |p: RowPtr| (i as int, p),
                ));
                if !matched_any {
                    assert(rm.len() == 0);
                    assert(self.pair_seq(*probe, i as int + 1) =~= old_pairs);
                }
                assert forall|m: int| 0 <= m < build_ptrs@.len()
                    implies #[trigger] self.pair_seq(*probe, i as int + 1)[m] == (
                    probe_rows@[m] as int,
                    build_ptrs@[m],
                ) by {
                    if m < old_pairs.len() {
                        assert(self.pair_seq(*probe, i as int + 1)[m] == old_pairs[m]);
                    } else {
                        assert(self.pair_seq(*probe, i as int + 1)[m] == rm.map_values(
                            |p: RowPtr| (i as int, p),
                        )[m - old_pairs.len()]);
                    }
                }
                if is_left {
                    assert(unmatched_rows@.map_values(|x: usize| x as int) =~= self.unmatched_seq(
                        *probe,
                        i as int + 1,
                    ));
                }
            }
            i = i + 1;
        }

        let probe_side = take_rows(probe, &probe_rows, &self.probe_schema);
        let build_side = self.row_space.gather(&build_ptrs);
        let merged = match self.merge_eq_chunk(&build_side, &probe_side) {
            Ok(m) => m,
            Err(e) => {
                return Err(e);
            },
        };
        let mut out: Vec<Chunk> = Vec::new();
        out.push(merged);

        if is_left {
            let un_side = take_rows(probe, &unmatched_rows, &self.probe_schema);
            let mut null_build_cols: Vec<ChunkEntry> = Vec::new();
            let mut c: usize = 0;
            while c < self.row_space.schema.len()
                invariant
                    c <= self.row_space.schema@.len(),
                    null_build_cols@.len() == c,
                    forall|k: int| 0 <= k < c
                        ==> (#[trigger] null_build_cols@[k]).value is Scalar
                            && null_build_cols@[k].value->Scalar_0 is Null,
                decreases self.row_space.schema@.len() - c,
            {
                null_build_cols.push(
                    ChunkEntry {
                        id: c,
                        value: Value::Scalar(Scalar::Null),
                        data_type: self.row_space.schema[c],
                    },
                );
                c = c + 1;
            }
            let null_build = Chunk { columns: null_build_cols, num_rows: unmatched_rows.len() };
            let un_merged = match self.merge_eq_chunk(&null_build, &un_side) {
                Ok(m) => m,
                Err(e) => {
                    return Err(e);
                },
            };
            out.push(un_merged);
        } else if matches!(jt, JoinType::Right | JoinType::Full) {
            let ghost old_bi = self.hash_join_desc.join_state.build_indexes@;
            let mut m: usize = 0;
            while m < build_ptrs.len()
                invariant
                    m <= build_ptrs@.len(),
                    self.row_space == old(self).row_space,
                    self.probe_schema == old(self).probe_schema,
                    self.hash_join_desc.join_type == old(self).hash_join_desc.join_type,
                    self.hash_join_desc.build_keys == old(self).hash_join_desc.build_keys,
                    self.hash_join_desc.probe_keys == old(self).hash_join_desc.probe_keys,
                    self.hash_join_desc.other_predicate == old(
                        self,
                    ).hash_join_desc.other_predicate,
                    self.hash_join_desc.join_state.rest_probe_chunks == old(
                        self,
                    ).hash_join_desc.join_state.rest_probe_chunks,
                    self.hash_join_desc.join_state.rest_build_indexes == old(
                        self,
                    ).hash_join_desc.join_state.rest_build_indexes,
                    self.hash_join_desc.join_state.validity == old(
                        self,
                    ).hash_join_desc.join_state.validity,
                    self.hash_join_desc.join_state.interrupted == old(
                        self,
                    ).hash_join_desc.join_state.interrupted,
                    old(self).wf(),
                    old_bi == old(self).hash_join_desc.join_state.build_indexes@,
                    self.hash_join_desc.join_state.build_indexes@.len() == old_bi.len() + m,
                    forall|t2: int| 0 <= t2 < old_bi.len()
                        ==> #[trigger] self.hash_join_desc.join_state.build_indexes@[t2]
                            == old_bi[t2],
                    forall|t2: int| 0 <= t2 < m
                        ==> #[trigger] self.hash_join_desc.join_state.build_indexes@[old_bi.len()
                            + t2] == build_ptrs@[t2],
                    self.row_space.ptrs_valid(build_ptrs@),
                    self.row_space.ptrs_valid(
                        self.hash_join_desc.join_state.build_indexes@,
                    ),
                decreases build_ptrs@.len() - m,
            {
                let p = build_ptrs[m];
                self.hash_join_desc.join_state.build_indexes.push(p);
                m = m + 1;
            }
        }
        Ok(out)
    }
}

impl JoinHashTable {

    /// Law: the inner join's output size is the number of key-equal,
    /// null-free pairs. `probe_chunk` emits one merged row per element of
    /// `pair_seq`, and for each probe row `pair_seq` holds exactly the
    /// stored build rows bearing its key -- each exactly once, and none
    /// at all when the probe key has a null component.
    pub proof fn lemma_inner_pairs_exact(&self, probe: Chunk, i: int)
        requires
            self.wf(),
        ensures
            !key_nonnull(self.probe_key_of(probe, i)) ==> self.row_matches(probe, i).len() == 0,
            key_nonnull(self.probe_key_of(probe, i)) ==> forall|j: int, i2: int|
                0 <= j < self.row_space.chunks@.len() && 0 <= i2
                    < self.row_space.chunks@[j].num_rows
                    ==> ((#[trigger] self.row_space.stored_key(j, i2)) == self.probe_key_of(
                        probe,
                        i,
                    ) <==> exists|m: int|
                        0 <= m < self.row_matches(probe, i).len() && (#[trigger] self.row_matches(
                            probe,
                            i,
                        )[m]).chunk_index == j && self.row_matches(probe, i)[m].row_index == i2),
            key_nonnull(self.probe_key_of(probe, i)) ==> forall|m1: int, m2: int|
                0 <= m1 < m2 < self.row_matches(probe, i).len()
                    ==> !((#[trigger] self.row_matches(probe, i)[m1]).chunk_index == (
                    #[trigger] self.row_matches(probe, i)[m2]).chunk_index
                        && self.row_matches(probe, i)[m1].row_index == self.row_matches(
                        probe,
                        i,
                    )[m2].row_index),
    {
        if key_nonnull(self.probe_key_of(probe, i)) {
            self.lemma_lookup_exact(self.probe_key_of(probe, i));
            assert(self.row_matches(probe, i) == self.lookup_ptrs(
                self.probe_key_of(probe, i),
            ));
        }
    }

    /// Law: a left join loses no probe row. Among the first `n` probe
    /// rows, every row with no equality match is listed (once) for
    /// null-extension, and every row with a match contributes at least
    /// one merged pair.
    pub proof fn lemma_left_coverage(&self, probe: Chunk, n: int)
        requires
            0 <= n,
        ensures
            forall|i: int|
                0 <= i < n && (#[trigger] self.row_matches(probe, i)).len() == 0
                    ==> exists|m: int|
                        0 <= m < self.unmatched_seq(probe, n).len()
                            && #[trigger] self.unmatched_seq(probe, n)[m] == i,
            forall|i: int|
                0 <= i < n && (#[trigger] self.row_matches(probe, i)).len() > 0
                    ==> exists|m: int|
                        0 <= m < self.pair_seq(probe, n).len() && (#[trigger] self.pair_seq(
                            probe,
                            n,
                        )[m]).0 == i,
        decreases n,
    {
        if n > 0 {
            self.lemma_left_coverage(probe, n - 1);
            let prev_un = self.unmatched_seq(probe, n - 1);
            let prev_pairs = self.pair_seq(probe, n - 1);
            let rm = self.row_matches(probe, n - 1);
            assert forall|i: int|
                0 <= i < n && (#[trigger] self.row_matches(probe, i)).len() == 0
                implies exists|m: int|
                    0 <= m < self.unmatched_seq(probe, n).len()
                        && #[trigger] self.unmatched_seq(probe, n)[m] == i by {
                if i == n - 1 {
                    assert(self.unmatched_seq(probe, n)[prev_un.len() as int] == i);
                } else {
                    let m = choose|m: int|
                        0 <= m < prev_un.len() && #[trigger] prev_un[m] == i;
                    assert(self.unmatched_seq(probe, n)[m] == i);
                }
            }
            assert forall|i: int|
                0 <= i < n && (#[trigger] self.row_matches(probe, i)).len() > 0
                implies exists|m: int|
                    0 <= m < self.pair_seq(probe, n).len() && (#[trigger] self.pair_seq(
                        probe,
                        n,
                    )[m]).0 == i by {
                if i == n - 1 {
                    assert((self.pair_seq(probe, n)[prev_pairs.len() as int]).0 == i);
                } else {
                    let m = choose|m: int|
                        0 <= m < prev_pairs.len() && (#[trigger] prev_pairs[m]).0 == i;
                    assert((self.pair_seq(probe, n)[m]).0 == i);
                }
            }
        }
    }

    /// Law: a lookup yields exactly the stored rows whose key equals the
    /// looked-up key -- every such row, only such rows, and none twice.
    /// With the pair count of `probe_chunk` this pins the inner join's
    /// output size to the number of key-equal pairs.
    pub proof fn lemma_lookup_exact(&self, k: Seq<ScalarV>)
        requires
            self.wf(),
        ensures
            forall|j: int, i: int|
                0 <= j < self.row_space.chunks@.len() && 0 <= i
                    < self.row_space.chunks@[j].num_rows
                    ==> ((#[trigger] self.row_space.stored_key(j, i)) == k <==> exists|m: int|
                        0 <= m < self.lookup_ptrs(k).len()
                            && (#[trigger] self.lookup_ptrs(k)[m]).chunk_index == j
                            && self.lookup_ptrs(k)[m].row_index == i),
            forall|m1: int, m2: int| 0 <= m1 < m2 < self.lookup_ptrs(k).len()
                ==> !((#[trigger] self.lookup_ptrs(k)[m1]).chunk_index == (
                #[trigger] self.lookup_ptrs(k)[m2]).chunk_index
                    && self.lookup_ptrs(k)[m1].row_index == self.lookup_ptrs(k)[m2].row_index),
    {
        assert forall|j: int, i: int|
            0 <= j < self.row_space.chunks@.len() && 0 <= i < self.row_space.chunks@[j].num_rows
            implies ((#[trigger] self.row_space.stored_key(j, i)) == k <==> exists|m: int|
                0 <= m < self.lookup_ptrs(k).len()
                    && (#[trigger] self.lookup_ptrs(k)[m]).chunk_index == j
                    && self.lookup_ptrs(k)[m].row_index == i) by {
            if self.row_space.stored_key(j, i) == k {
                assert(crate::row_space::row_indexed(
                    self.row_space.index@,
                    self.row_space.stored_key(j, i),
                    j,
                    i,
                ));
                let e = choose|e: int|
                    0 <= e < self.row_space.index@.len() && key_view(
                        (#[trigger] self.row_space.index@[e]).key@,
                    ) == k && crate::row_space::entry_contains(self.row_space.index@[e], j, i);
                let e2 = choose|e2: int|
                    0 <= e2 < self.row_space.index@.len() && key_view(
                        (#[trigger] self.row_space.index@[e2]).key@,
                    ) == k;
                assert(e == e2);
                let m = choose|m: int|
                    0 <= m < self.row_space.index@[e].ptrs@.len() && (
                    #[trigger] self.row_space.index@[e].ptrs@[m]).chunk_index == j
                        && self.row_space.index@[e].ptrs@[m].row_index == i;
                assert(self.lookup_ptrs(k)[m].chunk_index == j
                    && self.lookup_ptrs(k)[m].row_index == i);
            }
            if exists|m: int|
                0 <= m < self.lookup_ptrs(k).len()
                    && (#[trigger] self.lookup_ptrs(k)[m]).chunk_index == j
                    && self.lookup_ptrs(k)[m].row_index == i {
                let m = choose|m: int|
                    0 <= m < self.lookup_ptrs(k).len()
                        && (#[trigger] self.lookup_ptrs(k)[m]).chunk_index == j
                        && self.lookup_ptrs(k)[m].row_index == i;
                assert(self.lookup_ptrs(k).len() > 0);
                let e2 = choose|e2: int|
                    0 <= e2 < self.row_space.index@.len() && key_view(
                        (#[trigger] self.row_space.index@[e2]).key@,
                    ) == k;
                assert(self.row_space.index@[e2].ptrs@[m].chunk_index == j);
                assert(self.row_space.stored_key(j, i) == k);
            }
        }
        if self.lookup_ptrs(k).len() > 0 {
            let e2 = choose|e2: int|
                0 <= e2 < self.row_space.index@.len() && key_view(
                    (#[trigger] self.row_space.index@[e2]).key@,
                ) == k;
            assert(self.lookup_ptrs(k) == self.row_space.index@[e2].ptrs@);
        }
    }
}

} // verus!
