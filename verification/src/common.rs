//! The join-table engine: per-batch matching, residual-predicate
//! evaluation, marker assignment, validity composition for null
//! extension, and right/full-join finalization.

use vstd::prelude::*;

use crate::desc::HashJoinDesc;
use crate::desc::JoinType;
use crate::desc::MarkerKind;
use crate::desc::RowPtr;
use crate::row_space::RowSpace;
use crate::types::Chunk;
use crate::types::ChunkEntry;
use crate::types::Column;
use crate::types::DataType;
use crate::types::NullableColumn;
use crate::types::Scalar;
use crate::types::ScalarV;
use crate::types::Value;
use crate::types::dup_bools;
use crate::ErrorCode;

verus! {

/// The hash-join engine: build-side storage, the join description with
/// its shared probing state, and the probe-side schema (needed to
/// null-fill the probe side of unmatched build rows).
pub struct JoinHashTable {
    pub row_space: RowSpace,
    pub hash_join_desc: HashJoinDesc,
    pub probe_schema: Vec<DataType>,
}

/// The marker a mark-join cell reports: a `False` degrades to `Null`
/// when the build side held a null key (null-aware matching).
pub open spec fn adjusted_marker(m: MarkerKind, has_null: bool) -> MarkerKind {
    if m == MarkerKind::False && has_null {
        MarkerKind::Null
    } else {
        m
    }
}

/// The cell value a marker materializes to.
pub open spec fn marker_cell(m: MarkerKind) -> ScalarV {
    match m {
        MarkerKind::True => ScalarV::Bool(true),
        MarkerKind::False => ScalarV::Bool(false),
        MarkerKind::Null => ScalarV::Null,
    }
}

/// An all-true bitmap of length `n`.
pub open spec fn all_true(n: nat) -> Seq<bool> {
    Seq::new(n, |i: int| true)
}

/// The validity a column contributes to marker assignment: a plain
/// column is valid everywhere, an all-null column nowhere, a nullable
/// column where its own bitmap says so.
pub open spec fn col_validity(c: Column, n: nat) -> Seq<bool> {
    match c {
        Column::Null { .. } => Seq::new(n, |i: int| false),
        Column::Nullable(nc) => nc.validity@,
        _ => all_true(n),
    }
}

/// The conjunction of the first `k` columns' validities: a row is valid
/// only where every contributing column holds a real value.
pub open spec fn conj_valids(cols: Seq<Column>, n: nat, k: int) -> Seq<bool>
    decreases k when 0 <= k <= cols.len()
{
    if k <= 0 {
        all_true(n)
    } else {
        Seq::new(
            n,
            |i: int| conj_valids(cols, n, k - 1)[i] && col_validity(cols[k - 1], n)[i],
        )
    }
}

/// The marker a row starts with, propagating SQL three-valued logic:
/// `Null` exactly where some contributing column is null-valued (the
/// conjunction of the columns' validities is unset), `False` everywhere
/// else. Assignment never yields `True` here; only a matched row with a
/// satisfied predicate is later upgraded.
pub open spec fn initial_marker(cols: Seq<Column>, n: nat, i: int) -> MarkerKind {
    if !conj_valids(cols, n, cols.len() as int)[i] {
        MarkerKind::Null
    } else {
        MarkerKind::False
    }
}

impl JoinHashTable {
    pub open spec fn wf(&self) -> bool {
        &&& self.row_space.wf()
        &&& self.state_wf()
    }

    /// The shared probing state is consistent: every recorded build row
    /// pointer refers to a stored row, the deferred probe batches fit the
    /// probe schema, and the accumulated null-extension bitmap has one
    /// bit per deferred row.
    pub open spec fn state_wf(&self) -> bool {
        let st = self.hash_join_desc.join_state;
        &&& self.row_space.ptrs_valid(st.build_indexes@)
        &&& self.row_space.ptrs_valid(st.rest_build_indexes@)
        &&& forall|k: int| 0 <= k < st.rest_probe_chunks@.len()
            ==> (#[trigger] st.rest_probe_chunks@[k]).wf()
        &&& forall|k: int| 0 <= k < st.rest_probe_chunks@.len()
            ==> (#[trigger] st.rest_probe_chunks@[k]).num_columns() == self.probe_schema@.len()
        &&& forall|k: int, c: int, i: int|
            0 <= k < st.rest_probe_chunks@.len() && 0 <= c < self.probe_schema@.len()
                && 0 <= i < st.rest_probe_chunks@[k].num_rows
                ==> crate::types::conforms(
                    #[trigger] st.rest_probe_chunks@[k].cell(c, i),
                    self.probe_schema@[c],
                )
        &&& sum_rows(st.rest_probe_chunks@) == st.rest_build_indexes@.len()
        &&& st.validity@.len() == st.rest_build_indexes@.len()
    }

    /// Creates an engine for one join over the given build/probe schemas.
    pub fn create(
        desc: HashJoinDesc,
        build_schema: Vec<DataType>,
        probe_schema: Vec<DataType>,
    ) -> (r: JoinHashTable)
        requires
            desc.join_state.build_indexes@.len() == 0,
            desc.join_state.rest_probe_chunks@.len() == 0,
            desc.join_state.rest_build_indexes@.len() == 0,
            desc.join_state.validity@.len() == 0,
        ensures
            r.wf(),
            r.row_space.chunks@.len() == 0,
            r.hash_join_desc == desc,
            r.probe_schema@ == probe_schema@,
            r.row_space.schema@ == build_schema@,
            !r.row_space.has_null,
    {
        JoinHashTable { row_space: RowSpace::new(build_schema), hash_join_desc: desc, probe_schema }
    }

    /// Merges a build batch and a probe batch of the same row count into
    /// one: probe columns first, then the build columns.
    pub fn merge_eq_chunk(&self, build_chunk: &Chunk, probe_chunk: &Chunk) -> (r: Result<
        Chunk,
        ErrorCode,
    >)
        requires
            build_chunk.wf(),
            probe_chunk.wf(),
            build_chunk.num_rows == probe_chunk.num_rows,
        ensures
            r is Ok,
            r->Ok_0.wf(),
            r->Ok_0.num_rows == probe_chunk.num_rows,
            r->Ok_0.num_columns() == probe_chunk.num_columns() + build_chunk.num_columns(),
            forall|c: int| 0 <= c < probe_chunk.num_columns()
                ==> (#[trigger] r->Ok_0.columns@[c]).id == probe_chunk.columns@[c].id
                    && r->Ok_0.columns@[c].data_type == probe_chunk.columns@[c].data_type,
            forall|c: int, i: int|
                0 <= c < probe_chunk.num_columns() && 0 <= i < probe_chunk.num_rows
                    ==> #[trigger] r->Ok_0.cell(c, i) == probe_chunk.cell(c, i),
            forall|c: int| probe_chunk.num_columns() <= c
                < probe_chunk.num_columns() + build_chunk.num_columns()
                ==> (#[trigger] r->Ok_0.columns@[c]).id
                    == build_chunk.columns@[c - probe_chunk.num_columns()].id
                    && r->Ok_0.columns@[c].data_type
                        == build_chunk.columns@[c - probe_chunk.num_columns()].data_type,
            forall|c: int, i: int|
                probe_chunk.num_columns() <= c
                    < probe_chunk.num_columns() + build_chunk.num_columns()
                    && 0 <= i < probe_chunk.num_rows
                    ==> #[trigger] r->Ok_0.cell(c, i)
                        == build_chunk.cell(c - probe_chunk.num_columns(), i),
            forall|c: int| 0 <= c < probe_chunk.num_columns()
                ==> crate::types::same_shape(
                    (#[trigger] r->Ok_0.columns@[c]).value,
                    probe_chunk.columns@[c].value,
                ),
            forall|c: int| probe_chunk.num_columns() <= c
                < probe_chunk.num_columns() + build_chunk.num_columns()
                ==> crate::types::same_shape(
                    (#[trigger] r->Ok_0.columns@[c]).value,
                    build_chunk.columns@[c - probe_chunk.num_columns()].value,
                ),
    {
        let mut merged = probe_chunk.dup();
        let mut c: usize = 0;
        while c < build_chunk.columns.len()
            invariant
                build_chunk.wf(),
                probe_chunk.wf(),
                build_chunk.num_rows == probe_chunk.num_rows,
                c <= build_chunk.num_columns(),
                merged.wf(),
                merged.num_rows == probe_chunk.num_rows,
                merged.num_columns() == probe_chunk.num_columns() + c,
                forall|k: int| 0 <= k < probe_chunk.num_columns()
                    ==> (#[trigger] merged.columns@[k]).id == probe_chunk.columns@[k].id
                        && merged.columns@[k].data_type == probe_chunk.columns@[k].data_type,
                forall|k: int, i: int|
                    0 <= k < probe_chunk.num_columns() && 0 <= i < probe_chunk.num_rows
                        ==> #[trigger] merged.cell(k, i) == probe_chunk.cell(k, i),
                forall|k: int| probe_chunk.num_columns() <= k < probe_chunk.num_columns() + c
                    ==> (#[trigger] merged.columns@[k]).id
                        == build_chunk.columns@[k - probe_chunk.num_columns()].id
                        && merged.columns@[k].data_type
                            == build_chunk.columns@[k - probe_chunk.num_columns()].data_type,
                forall|k: int, i: int|
                    probe_chunk.num_columns() <= k < probe_chunk.num_columns() + c
                        && 0 <= i < probe_chunk.num_rows
                        ==> #[trigger] merged.cell(k, i)
                            == build_chunk.cell(k - probe_chunk.num_columns(), i),
                forall|k: int| 0 <= k < probe_chunk.num_columns()
                    ==> crate::types::same_shape(
                        (#[trigger] merged.columns@[k]).value,
                        probe_chunk.columns@[k].value,
                    ),
                forall|k: int| probe_chunk.num_columns() <= k < probe_chunk.num_columns() + c
                    ==> crate::types::same_shape(
                        (#[trigger] merged.columns@[k]).value,
                        build_chunk.columns@[k - probe_chunk.num_columns()].value,
                    ),
            decreases build_chunk.num_columns() - c,
        {
            let ghost before = merged;
            assert(build_chunk.columns@[c as int].wf(build_chunk.num_rows as nat));
            let entry = build_chunk.columns[c].dup();
            merged.columns.push(entry);
            proof {
                let pn = probe_chunk.num_columns() as int;
                assert(merged.columns@ == before.columns@.push(entry));
                assert forall|i: int| 0 <= i < probe_chunk.num_rows
                    implies #[trigger] merged.cell(pn + c, i) == build_chunk.cell(c as int, i) by {
                    assert(merged.columns@[pn + c] == entry);
                    assert(entry.cell(i) == build_chunk.columns@[c as int].cell(i));
                }
                assert forall|k: int, i: int|
                    0 <= k < before.columns@.len() && 0 <= i < probe_chunk.num_rows
                    implies #[trigger] merged.cell(k, i) == before.cell(k, i) by {
                    assert(merged.columns@[k] == before.columns@[k]);
                }
                assert forall|k: int| 0 <= k < merged.columns@.len()
                    implies (#[trigger] merged.columns@[k]).wf(merged.num_rows as nat) by {
                    if k < before.columns@.len() {
                        assert(merged.columns@[k] == before.columns@[k]);
                    } else {
                        assert(merged.columns@[k] == entry);
                        assert(entry.wf(build_chunk.num_rows as nat));
                    }
                }
            }
            c = c + 1;
        }
        Ok(merged)
    }

    /// Looks a probe row's key up, honoring three-valued null handling:
    /// a probe key whose validity bit is unset never matches.
    pub fn probe_key<'a>(
        &'a self,
        key: &Vec<Scalar>,
        valids: &Option<Vec<bool>>,
        i: usize,
    ) -> (r: Option<&'a Vec<RowPtr>>)
        requires
            self.wf(),
            match valids {
                Option::Some(v) => i < v@.len(),
                Option::None => true,
            },
        ensures
            match valids {
                Option::Some(v) => !v@[i as int] ==> r is None,
                Option::None => true,
            },
            (match valids {
                Option::Some(v) => v@[i as int],
                Option::None => true,
            }) ==> match r {
                Option::Some(v) => exists|e: int|
                    0 <= e < self.row_space.index@.len()
                        && crate::row_space::key_view(
                        (#[trigger] self.row_space.index@[e]).key@,
                    ) == crate::row_space::key_view(key@)
                        && v@ == self.row_space.index@[e].ptrs@,
                Option::None => forall|e: int|
                    0 <= e < self.row_space.index@.len()
                        ==> crate::row_space::key_view((#[trigger] self.row_space.index@[e]).key@)
                            != crate::row_space::key_view(key@),
            },
    {
        let proceed = match valids {
            Option::Some(v) => v[i],
            Option::None => true,
        };
        if proceed {
            self.row_space.entry(key)
        } else {
            Option::None
        }
    }

    /// Initial markers for mark-join matching, one per row: `Null` where
    /// some contributing column is null-valued at that row (SQL
    /// three-valued logic), `False` everywhere else -- never `True`.
    pub fn init_markers(cols: &Vec<Column>, num_rows: usize) -> (r: Vec<MarkerKind>)
        requires
            forall|c: int| 0 <= c < cols@.len() ==> (#[trigger] cols@[c]).wf(),
            forall|c: int| 0 <= c < cols@.len()
                ==> (#[trigger] cols@[c]).spec_len() == num_rows,
        ensures
            r@.len() == num_rows,
            forall|i: int| 0 <= i < num_rows
                ==> r@[i] == initial_marker(cols@, num_rows as nat, i),
            forall|i: int| 0 <= i < num_rows ==> r@[i] != MarkerKind::True,
    {
        let mut valids: Vec<bool> = Vec::new();
        while valids.len() < num_rows
            invariant
                valids@.len() <= num_rows,
                forall|t: int| 0 <= t < valids@.len() ==> #[trigger] valids@[t],
            decreases num_rows - valids@.len(),
        {
            valids.push(true);
        }
        assert(valids@ =~= conj_valids(cols@, num_rows as nat, 0));
        let mut k: usize = 0;
        while k < cols.len()
            invariant
                forall|c: int| 0 <= c < cols@.len() ==> (#[trigger] cols@[c]).wf(),
                forall|c: int| 0 <= c < cols@.len()
                    ==> (#[trigger] cols@[c]).spec_len() == num_rows,
                k <= cols@.len(),
                valids@.len() == num_rows,
                valids@ == conj_valids(cols@, num_rows as nat, k as int),
            decreases cols@.len() - k,
        {
            let col = &cols[k];
            let mut next: Vec<bool> = Vec::new();
            let mut i: usize = 0;
            while i < num_rows
                invariant
                    forall|c: int| 0 <= c < cols@.len() ==> (#[trigger] cols@[c]).wf(),
                    forall|c: int| 0 <= c < cols@.len()
                        ==> (#[trigger] cols@[c]).spec_len() == num_rows,
                    k < cols@.len(),
                    col == cols@[k as int],
                    valids@.len() == num_rows,
                    i <= num_rows,
                    next@.len() == i,
                    forall|t: int| 0 <= t < i
                        ==> (#[trigger] next@[t]) == (valids@[t] && col_validity(
                            cols@[k as int],
                            num_rows as nat,
                        )[t]),
                decreases num_rows - i,
            {
                let bit = match col {
                    Column::Null { .. } => false,
                    Column::Nullable(nc) => nc.validity[i],
                    _ => true,
                };
                next.push(valids[i] && bit);
                i = i + 1;
            }
            valids = next;
            assert(valids@ =~= conj_valids(cols@, num_rows as nat, k as int + 1));
            k = k + 1;
        }
        let mut markers: Vec<MarkerKind> = Vec::new();
        let mut i: usize = 0;
        while i < num_rows
            invariant
                valids@.len() == num_rows,
                valids@ == conj_valids(cols@, num_rows as nat, cols@.len() as int),
                i <= num_rows,
                markers@.len() == i,
                forall|t: int| 0 <= t < i
                    ==> markers@[t] == initial_marker(cols@, num_rows as nat, t),
            decreases num_rows - i,
        {
            let m = if !valids[i] {
                MarkerKind::Null
            } else {
                MarkerKind::False
            };
            markers.push(m);
            i = i + 1;
        }
        markers
    }

    /// Materializes markers as the single nullable-boolean mark-join
    /// output column: `True` becomes a valid `true`, `Null` an invalid
    /// cell, and `False` a valid `false` -- degraded to invalid when the
    /// build side held a null key.
    pub fn create_marker_chunk(&self, has_null: bool, markers: Vec<MarkerKind>) -> (r: Result<
        Chunk,
        ErrorCode,
    >)
        ensures
            r is Ok,
            r->Ok_0.wf(),
            r->Ok_0.num_rows == markers@.len(),
            r->Ok_0.num_columns() == 1,
            r->Ok_0.columns@[0].data_type == DataType::NullableBoolean,
            forall|i: int| 0 <= i < markers@.len()
                ==> #[trigger] r->Ok_0.cell(0, i) == marker_cell(
                    adjusted_marker(markers@[i], has_null),
                ),
    {
        let mut validity: Vec<bool> = Vec::new();
        let mut boolean_bit_map: Vec<bool> = Vec::new();
        let mut i: usize = 0;
        while i < markers.len()
            invariant
                i <= markers@.len(),
                validity@.len() == i,
                boolean_bit_map@.len() == i,
                forall|t: int| 0 <= t < i
                    ==> (#[trigger] validity@[t]) == (adjusted_marker(markers@[t], has_null)
                        != MarkerKind::Null),
                forall|t: int| 0 <= t < i
                    ==> (#[trigger] boolean_bit_map@[t]) == (adjusted_marker(
                        markers@[t],
                        has_null,
                    ) == MarkerKind::True),
            decreases markers@.len() - i,
        {
            let m0 = markers[i];
            let marker = if matches!(m0, MarkerKind::False) && has_null {
                MarkerKind::Null
            } else {
                m0
            };
            if matches!(marker, MarkerKind::Null) {
                validity.push(false);
            } else {
                validity.push(true);
            }
            if matches!(marker, MarkerKind::True) {
                boolean_bit_map.push(true);
            } else {
                boolean_bit_map.push(false);
            }
            i = i + 1;
        }
        let num_rows = validity.len();
        let marker_column = Column::Nullable(
            NullableColumn { column: Box::new(Column::Boolean(boolean_bit_map)), validity },
        );
        let entry = ChunkEntry {
            id: 0,
            value: Value::Column(marker_column),
            data_type: DataType::NullableBoolean,
        };
        let mut columns: Vec<ChunkEntry> = Vec::new();
        columns.push(entry);
        Ok(Chunk { columns, num_rows })
    }
}

/// Law: marker materialization never invents a match. A mark-join cell
/// reads `true` only for a marker that was `True`; `init_markers` itself
/// never yields `True`, so a row whose key or predicate input was null
/// -- which starts `Null` and can at most be degraded further by
/// `has_null` -- never reports a match.
pub proof fn lemma_marker_cell_true(m: MarkerKind, has_null: bool)
    ensures
        marker_cell(adjusted_marker(m, has_null)) == ScalarV::Bool(true) <==> m
            == MarkerKind::True,
{
}

/// Composition of a supplied validity mask (the target length) with a
/// column's own mask: positions are valid only where both masks are, and
/// positions past the shorter mask are invalid.
pub open spec fn combine_validity(target: Seq<bool>, cur: Seq<bool>) -> Seq<bool> {
    Seq::new(target.len(), |i: int| if i < cur.len() {
        target[i] && cur[i]
    } else {
        false
    })
}

/// Law: validity composition is length-safe and idempotent. The result
/// always has the target's length -- a mask shorter than the target pads
/// with invalid rather than truncating -- and composing an
/// already-composed mask with the same target changes nothing.
pub proof fn lemma_combine_validity_idempotent(target: Seq<bool>, cur: Seq<bool>)
    ensures
        combine_validity(target, cur).len() == target.len(),
        combine_validity(target, combine_validity(target, cur)) == combine_validity(target, cur),
{
    assert(combine_validity(target, combine_validity(target, cur)) =~= combine_validity(
        target,
        cur,
    ));
}

/// Extends a plain column to the given length with default values.
fn extend_plain(col: &Column, to: usize) -> (r: Column)
    requires
        col.wf(),
        !(col is Nullable),
        !(col is Null),
        col.spec_len() <= to,
    ensures
        r.wf(),
        !(r is Nullable),
        !(r is Null),
        r.spec_len() == to,
        forall|i: int| 0 <= i < col.spec_len() ==> r.plain_cell(i) == col.plain_cell(i),
{
    match col {
        Column::Boolean(v) => {
            let mut w = dup_bools(v);
            while w.len() < to
                invariant
                    w@.len() <= to,
                    v@.len() <= w@.len(),
                    forall|i: int| 0 <= i < v@.len() ==> w@[i] == v@[i],
                decreases to - w@.len(),
            {
                w.push(false);
            }
            Column::Boolean(w)
        },
        Column::Number(v) => {
            let mut w = crate::types::dup_nums(v);
            while w.len() < to
                invariant
                    w@.len() <= to,
                    v@.len() <= w@.len(),
                    forall|i: int| 0 <= i < v@.len() ==> w@[i] == v@[i],
                decreases to - w@.len(),
            {
                w.push(0);
            }
            Column::Number(w)
        },
        Column::Text(v) => {
            let mut w = crate::types::dup_texts(v);
            while w.len() < to
                invariant
                    w@.len() <= to,
                    v@.len() <= w@.len(),
                    forall|i: int| 0 <= i < v@.len() ==> (#[trigger] w@[i])@ == v@[i]@,
                decreases to - w@.len(),
            {
                w.push(String::new());
            }
            Column::Text(w)
        },
        _ => Column::Boolean(Vec::new()),
    }
}

/// A value every cell of which is boolean or null, so that it can serve
/// as a predicate result.
pub open spec fn bool_shaped(v: Value) -> bool {
    match v {
        Value::Scalar(s) => s@ is Bool || s@ is Null,
        Value::Column(c) => match c {
            Column::Boolean(_) => true,
            Column::Null { .. } => true,
            Column::Nullable(n) => (*n.column) is Boolean,
            _ => false,
        },
    }
}

/// Whether a predicate expression evaluates over the batch to a boolean
/// (or boolean-with-null) result.
pub open spec fn filter_ok(e: crate::expr::Expr, chunk: Chunk) -> bool {
    match e {
        crate::expr::Expr::Literal(_) => true,
        crate::expr::Expr::ColumnRef(c) => c < chunk.num_columns() && bool_shaped(
            chunk.columns@[c as int].value,
        ),
    }
}

/// The predicate's value for row `i`.
pub open spec fn filter_cell(chunk: Chunk, e: crate::expr::Expr, i: int) -> ScalarV {
    match e {
        crate::expr::Expr::Literal(b) => ScalarV::Bool(b),
        crate::expr::Expr::ColumnRef(c) => chunk.cell(c as int, i),
    }
}

/// A predicate cell passes the filter only when it is a true boolean:
/// both `false` and null fail (null distinctly, for marker purposes).
pub open spec fn truthy(v: ScalarV) -> bool {
    v == ScalarV::Bool(true)
}

/// Every bit of the bitmap is set.
pub open spec fn all_set(bits: Seq<bool>) -> bool {
    forall|i: int| 0 <= i < bits.len() ==> bits[i]
}

/// No bit of the bitmap is set.
pub open spec fn none_set(bits: Seq<bool>) -> bool {
    forall|i: int| 0 <= i < bits.len() ==> !bits[i]
}

impl JoinHashTable {
    /// Produces the nullable version of one batch entry by composing its
    /// own validity with the supplied mask: a constant scalar stays or
    /// becomes null by the mask's first bit; an all-null column is
    /// unchanged; a zero-row nullable column collapses to an all-null
    /// column of the mask's length; a nullable column gets both masks
    /// conjoined, padded with invalid where its own mask is shorter; a
    /// plain column is wrapped with the mask as its validity.
    pub fn set_validity(column: &ChunkEntry, validity: &Vec<bool>) -> (r: ChunkEntry)
        requires
            column.value.wf_value(),
            column.value is Scalar ==> validity@.len() >= 1,
            match column.value {
                Value::Column(c) => match c {
                    Column::Nullable(n) => n.validity@.len() == 0 || n.validity@.len()
                        <= validity@.len(),
                    Column::Null { .. } => true,
                    _ => c.spec_len() == validity@.len(),
                },
                _ => true,
            },
        ensures
            r.id == column.id,
            r.value.wf_value(),
            match column.value {
                Value::Scalar(_) => {
                    &&& r.data_type == column.data_type.spec_wrap_nullable()
                    &&& r.value is Scalar
                    &&& forall|i: int| r.cell(i) == (if validity@[0] {
                        column.cell(i)
                    } else {
                        ScalarV::Null
                    })
                },
                Value::Column(c) => match c {
                    Column::Null { .. } => {
                        &&& r.data_type == column.data_type
                        &&& r.value is Column
                        &&& (r.value->Column_0) is Null
                        &&& r.value.value_len() == column.value.value_len()
                        &&& forall|i: int| r.cell(i) == ScalarV::Null
                    },
                    Column::Nullable(n) => if n.validity@.len() == 0 {
                        &&& r.data_type == column.data_type
                        &&& r.value is Column
                        &&& (r.value->Column_0) is Null
                        &&& r.value.value_len() == Option::Some(validity@.len())
                        &&& forall|i: int| r.cell(i) == ScalarV::Null
                    } else {
                        &&& r.data_type == column.data_type
                        &&& r.value is Column
                        &&& r.value.value_len() == Option::Some(validity@.len())
                        &&& (r.value->Column_0) is Nullable
                        &&& (r.value->Column_0)->Nullable_0.validity@ == combine_validity(
                            validity@,
                            n.validity@,
                        )
                        &&& forall|i: int| 0 <= i < validity@.len()
                            ==> r.cell(i) == (if i < n.validity@.len() && validity@[i] {
                                column.cell(i)
                            } else {
                                ScalarV::Null
                            })
                    },
                    _ => {
                        &&& r.data_type == column.data_type
                        &&& r.value is Column
                        &&& r.value.value_len() == Option::Some(validity@.len())
                        &&& (r.value->Column_0) is Nullable
                        &&& (r.value->Column_0)->Nullable_0.validity@ == validity@
                        &&& forall|i: int| 0 <= i < validity@.len()
                            ==> r.cell(i) == (if validity@[i] {
                                column.cell(i)
                            } else {
                                ScalarV::Null
                            })
                    },
                },
            },
    {
        match &column.value {
            Value::Scalar(s) => {
                let valid = validity[0];
                if valid {
                    ChunkEntry {
                        id: column.id,
                        value: Value::Scalar(s.dup()),
                        data_type: column.data_type.wrap_nullable(),
                    }
                } else {
                    ChunkEntry {
                        id: column.id,
                        value: Value::Scalar(Scalar::Null),
                        data_type: column.data_type.wrap_nullable(),
                    }
                }
            },
            Value::Column(col) => match col {
                Column::Null { len } => ChunkEntry {
                    id: column.id,
                    value: Value::Column(Column::Null { len: *len }),
                    data_type: column.data_type,
                },
                Column::Nullable(n) => {
                    if n.validity.len() == 0 {
                        ChunkEntry {
                            id: column.id,
                            value: Value::Column(Column::Null { len: validity.len() }),
                            data_type: column.data_type,
                        }
                    } else {
                        let mut new_validity: Vec<bool> = Vec::new();
                        let mut i: usize = 0;
                        while i < n.validity.len()
                            invariant
                                n.validity@.len() <= validity@.len(),
                                i <= n.validity@.len(),
                                new_validity@.len() == i,
                                forall|t: int| 0 <= t < i
                                    ==> (#[trigger] new_validity@[t]) == (validity@[t]
                                        && n.validity@[t]),
                            decreases n.validity@.len() - i,
                        {
                            new_validity.push(validity[i] && n.validity[i]);
                            i = i + 1;
                        }
                        while new_validity.len() < validity.len()
                            invariant
                                new_validity@.len() <= validity@.len(),
                                n.validity@.len() <= new_validity@.len(),
                                forall|t: int| 0 <= t < n.validity@.len()
                                    ==> (#[trigger] new_validity@[t]) == (validity@[t]
                                        && n.validity@[t]),
                                forall|t: int| n.validity@.len() <= t < new_validity@.len()
                                    ==> !(#[trigger] new_validity@[t]),
                            decreases validity@.len() - new_validity@.len(),
                        {
                            new_validity.push(false);
                        }
                        assert(new_validity@ =~= combine_validity(validity@, n.validity@));
                        let inner = extend_plain(&n.column, validity.len());
                        let c2 = Column::Nullable(
                            NullableColumn { column: Box::new(inner), validity: new_validity },
                        );
                        let r = ChunkEntry {
                            id: column.id,
                            value: Value::Column(c2),
                            data_type: column.data_type,
                        };
                        assert forall|i2: int| 0 <= i2 < validity@.len()
                            implies r.cell(i2) == (if i2 < n.validity@.len() && validity@[i2] {
                                column.cell(i2)
                            } else {
                                ScalarV::Null
                            }) by {
                            if i2 < n.validity@.len() {
                                assert((*n.column).spec_len() == n.validity@.len());
                            }
                        }
                        r
                    }
                },
                _ => {
                    let wrapped = Column::Nullable(
                        NullableColumn {
                            column: Box::new(col.dup()),
                            validity: dup_bools(validity),
                        },
                    );
                    let r = ChunkEntry {
                        id: column.id,
                        value: Value::Column(wrapped),
                        data_type: column.data_type,
                    };
                    assert forall|i2: int| 0 <= i2 < validity@.len()
                        implies r.cell(i2) == (if validity@[i2] {
                            column.cell(i2)
                        } else {
                            ScalarV::Null
                        }) by {}
                    r
                },
            },
        }
    }

    /// Evaluates the residual ("other") predicate over a merged batch.
    /// A constant result applies uniformly to every row and comes back as
    /// the two summary flags alone; a per-row result comes back as a
    /// pass bitmap (null counts as not passing) plus the flags.
    #[verifier::rlimit(60)]
    pub fn get_other_filters(&self, merged_chunk: &Chunk, filter: &crate::expr::Expr) -> (r:
        Result<(Option<Vec<bool>>, bool, bool), ErrorCode>)
        requires
            merged_chunk.wf(),
        ensures
            r is Ok <==> filter_ok(*filter, *merged_chunk),
            r is Err ==> r->Err_0 == (if filter.evaluable(merged_chunk.num_columns()) {
                ErrorCode::Internal
            } else {
                ErrorCode::Evaluation
            }),
            r is Ok ==> ((r->Ok_0).0 is Some <==> (*filter is ColumnRef
                && merged_chunk.columns@[filter.spec_col()].value is Column)),
            r is Ok ==> match (r->Ok_0).0 {
                Option::Some(bits) => {
                    &&& bits@.len() == merged_chunk.num_rows
                    &&& forall|i: int| 0 <= i < bits@.len()
                        ==> (#[trigger] bits@[i]) == truthy(
                            filter_cell(*merged_chunk, *filter, i),
                        )
                    &&& (r->Ok_0).1 == all_set(bits@)
                    &&& (r->Ok_0).2 == none_set(bits@)
                },
                Option::None => {
                    &&& forall|i: int| truthy(filter_cell(*merged_chunk, *filter, i)) == (
                    r->Ok_0).1
                    &&& (r->Ok_0).2 == !(r->Ok_0).1
                },
            },
    {
        let c: usize = match filter {
            crate::expr::Expr::Literal(b) => {
                return Ok((Option::None, *b, !*b));
            },
            crate::expr::Expr::ColumnRef(c) => *c,
        };
        if c >= merged_chunk.columns.len() {
            return Err(ErrorCode::Evaluation);
        }
        assert(merged_chunk.columns@[c as int].wf(merged_chunk.num_rows as nat));
        let value = &merged_chunk.columns[c].value;
        match value {
            Value::Scalar(s) => match s {
                Scalar::Bool(b) => Ok((Option::None, *b, !*b)),
                Scalar::Null => Ok((Option::None, false, true)),
                _ => Err(ErrorCode::Internal),
            },
            Value::Column(col) => {
                let bits: Vec<bool> = match col {
                    Column::Boolean(v) => dup_bools(v),
                    Column::Null { len } => {
                        let mut w: Vec<bool> = Vec::new();
                        while w.len() < *len
                            invariant
                                w@.len() <= *len,
                                forall|t: int| 0 <= t < w@.len() ==> !(#[trigger] w@[t]),
                            decreases *len - w@.len(),
                        {
                            w.push(false);
                        }
                        w
                    },
                    Column::Nullable(n) => match &*n.column {
                        Column::Boolean(bv) => {
                            let mut w: Vec<bool> = Vec::new();
                            let mut i: usize = 0;
                            while i < n.validity.len()
                                invariant
                                    bv@.len() == n.validity@.len(),
                                    i <= n.validity@.len(),
                                    w@.len() == i,
                                    forall|t: int| 0 <= t < i
                                        ==> (#[trigger] w@[t]) == (n.validity@[t] && bv@[t]),
                                decreases n.validity@.len() - i,
                            {
                                w.push(n.validity[i] && bv[i]);
                                i = i + 1;
                            }
                            w
                        },
                        _ => {
                            return Err(ErrorCode::Internal);
                        },
                    },
                    _ => {
                        return Err(ErrorCode::Internal);
                    },
                };
                let mut all_pass = true;
                let mut none_pass = true;
                let mut i: usize = 0;
                while i < bits.len()
                    invariant
                        i <= bits@.len(),
                        all_pass == (forall|t: int| 0 <= t < i ==> #[trigger] bits@[t]),
                        none_pass == (forall|t: int| 0 <= t < i ==> !(#[trigger] bits@[t])),
                    decreases bits@.len() - i,
                {
                    if bits[i] {
                        none_pass = false;
                    } else {
                        all_pass = false;
                    }
                    i = i + 1;
                }
                assert(all_pass == all_set(bits@));
                assert(none_pass == none_set(bits@));
                Ok((Option::Some(bits), all_pass, none_pass))
            },
        }
    }

    /// Evaluates the residual predicate and returns it as one full
    /// nullable-boolean column of the batch's row count, preserving which
    /// rows were null (needed for mark-join three-valued logic).
    pub fn get_nullable_filter_column(&self, merged_chunk: &Chunk, filter: &crate::expr::Expr)
        -> (r: Result<Column, ErrorCode>)
        requires
            merged_chunk.wf(),
        ensures
            r is Ok <==> filter_ok(*filter, *merged_chunk),
            r is Err ==> r->Err_0 == (if filter.evaluable(merged_chunk.num_columns()) {
                ErrorCode::Internal
            } else {
                ErrorCode::Evaluation
            }),
            r is Ok ==> {
                &&& (r->Ok_0).wf()
                &&& (r->Ok_0) is Nullable
                &&& (r->Ok_0).spec_len() == merged_chunk.num_rows
                &&& forall|i: int| 0 <= i < merged_chunk.num_rows
                    ==> (r->Ok_0).cell(i) == filter_cell(*merged_chunk, *filter, i)
            },
    {
        let source: Option<&ChunkEntry> = match filter {
            crate::expr::Expr::Literal(_) => Option::None,
            crate::expr::Expr::ColumnRef(c) => {
                if *c >= merged_chunk.columns.len() {
                    return Err(ErrorCode::Evaluation);
                }
                let entry = &merged_chunk.columns[*c];
                let shaped = match &entry.value {
                    Value::Scalar(s) => matches!(s, Scalar::Bool(_) | Scalar::Null),
                    Value::Column(col) => match col {
                        Column::Boolean(_) => true,
                        Column::Null { .. } => true,
                        Column::Nullable(n) => matches!(&*n.column, Column::Boolean(_)),
                        _ => false,
                    },
                };
                if !shaped {
                    return Err(ErrorCode::Internal);
                }
                Option::Some(entry)
            },
        };
        let mut cells: Vec<Scalar> = Vec::new();
        let mut i: usize = 0;
        while i < merged_chunk.num_rows
            invariant
                merged_chunk.wf(),
                filter_ok(*filter, *merged_chunk),
                match source {
                    Option::Some(entry) => *filter is ColumnRef && entry == merged_chunk.columns@[
                        filter.spec_col()] && filter.spec_col() < merged_chunk.num_columns(),
                    Option::None => *filter is Literal,
                },
                i <= merged_chunk.num_rows,
                cells@.len() == i,
                forall|t: int| 0 <= t < i
                    ==> (#[trigger] cells@[t])@ == filter_cell(*merged_chunk, *filter, t),
                forall|t: int| 0 <= t < i
                    ==> crate::types::conforms(
                        (#[trigger] cells@[t])@,
                        DataType::NullableBoolean,
                    ),
            decreases merged_chunk.num_rows - i,
        {
            let s = match (&source, filter) {
                (Option::Some(entry), _) => {
                    assert(entry.wf(merged_chunk.num_rows as nat));
                    entry.scalar_at(i)
                },
                (Option::None, crate::expr::Expr::Literal(b)) => Scalar::Bool(*b),
                (Option::None, _) => Scalar::Null,
            };
            cells.push(s);
            i = i + 1;
        }
        Ok(crate::types::build_column(&cells, DataType::NullableBoolean))
    }
}

/// How many of the first `k` bits are set.
pub open spec fn count_true(bits: Seq<bool>, k: int) -> nat
    decreases k when 0 <= k <= bits.len()
{
    if k <= 0 {
        0
    } else {
        count_true(bits, k - 1) + (if bits[k - 1] {
            1nat
        } else {
            0nat
        })
    }
}

/// The indices of the set bits, in order.
pub open spec fn sel_indices(bits: Seq<bool>, k: int) -> Seq<int>
    decreases k when 0 <= k <= bits.len()
{
    if k <= 0 {
        Seq::empty()
    } else if bits[k - 1] {
        sel_indices(bits, k - 1).push(k - 1)
    } else {
        sel_indices(bits, k - 1)
    }
}

/// A selected index is a set bit within range.
pub proof fn lemma_sel_indices_in_range(bits: Seq<bool>, k: int)
    requires
        0 <= k <= bits.len(),
    ensures
        sel_indices(bits, k).len() == count_true(bits, k),
        forall|m: int| 0 <= m < sel_indices(bits, k).len()
            ==> 0 <= #[trigger] sel_indices(bits, k)[m] < k && bits[sel_indices(bits, k)[m]],
    decreases k,
{
    if k > 0 {
        lemma_sel_indices_in_range(bits, k - 1);
    }
}

/// Materializes the rows named by `rows`, in that order, using the
/// schema to build the typed output columns.
pub fn take_rows(chunk: &Chunk, rows: &Vec<usize>, schema: &Vec<DataType>) -> (r: Chunk)
    requires
        chunk.wf(),
        chunk.num_columns() == schema@.len(),
        forall|c: int, i: int|
            0 <= c < schema@.len() && 0 <= i < chunk.num_rows
                ==> crate::types::conforms(#[trigger] chunk.cell(c, i), schema@[c]),
        forall|m: int| 0 <= m < rows@.len() ==> (#[trigger] rows@[m]) < chunk.num_rows,
    ensures
        r.wf(),
        r.num_rows == rows@.len(),
        r.num_columns() == schema@.len(),
        forall|c: int| 0 <= c < schema@.len()
            ==> (#[trigger] r.columns@[c]).data_type == schema@[c] && r.columns@[c].id == c
                && r.columns@[c].value is Column,
        forall|c: int, m: int| 0 <= c < schema@.len() && 0 <= m < rows@.len()
            ==> #[trigger] r.cell(c, m) == chunk.cell(c, rows@[m] as int),
{
    let mut cols: Vec<ChunkEntry> = Vec::new();
    let mut c: usize = 0;
    while c < schema.len()
        invariant
            chunk.wf(),
            chunk.num_columns() == schema@.len(),
            forall|c2: int, i: int|
                0 <= c2 < schema@.len() && 0 <= i < chunk.num_rows
                    ==> crate::types::conforms(#[trigger] chunk.cell(c2, i), schema@[c2]),
            forall|m: int| 0 <= m < rows@.len() ==> (#[trigger] rows@[m]) < chunk.num_rows,
            c <= schema@.len(),
            cols@.len() == c,
            forall|k: int| 0 <= k < c
                ==> (#[trigger] cols@[k]).data_type == schema@[k] && cols@[k].id == k
                    && cols@[k].wf(rows@.len() as nat) && cols@[k].value is Column,
            forall|k: int, m: int| 0 <= k < c && 0 <= m < rows@.len()
                ==> #[trigger] cols@[k].cell(m) == chunk.cell(k, rows@[m] as int),
        decreases schema@.len() - c,
    {
        let mut cells: Vec<Scalar> = Vec::new();
        let mut m: usize = 0;
        while m < rows.len()
            invariant
                chunk.wf(),
                chunk.num_columns() == schema@.len(),
                forall|c2: int, i: int|
                    0 <= c2 < schema@.len() && 0 <= i < chunk.num_rows
                        ==> crate::types::conforms(#[trigger] chunk.cell(c2, i), schema@[c2]),
                forall|m2: int| 0 <= m2 < rows@.len()
                    ==> (#[trigger] rows@[m2]) < chunk.num_rows,
                c < schema@.len(),
                m <= rows@.len(),
                cells@.len() == m,
                forall|t: int| 0 <= t < m
                    ==> (#[trigger] cells@[t])@ == chunk.cell(c as int, rows@[t] as int),
                forall|t: int| 0 <= t < m
                    ==> crate::types::conforms((#[trigger] cells@[t])@, schema@[c as int]),
            decreases rows@.len() - m,
        {
            assert(chunk.columns@[c as int].wf(chunk.num_rows as nat));
            let s = chunk.columns[c].scalar_at(rows[m]);
            assert(s@ == chunk.cell(c as int, rows@[m as int] as int));
            cells.push(s);
            m = m + 1;
        }
        let col = crate::types::build_column(&cells, schema[c]);
        cols.push(ChunkEntry { id: c, value: Value::Column(col), data_type: schema[c] });
        c = c + 1;
    }
    Chunk { columns: cols, num_rows: rows.len() }
}

/// Keeps exactly the rows whose bit is set, in order.
pub fn filter_chunk(chunk: &Chunk, bits: &Vec<bool>, schema: &Vec<DataType>) -> (r: Chunk)
    requires
        chunk.wf(),
        bits@.len() == chunk.num_rows,
        chunk.num_columns() == schema@.len(),
        forall|c: int, i: int|
            0 <= c < schema@.len() && 0 <= i < chunk.num_rows
                ==> crate::types::conforms(#[trigger] chunk.cell(c, i), schema@[c]),
    ensures
        r.wf(),
        r.num_rows == count_true(bits@, bits@.len() as int),
        r.num_columns() == chunk.num_columns(),
        forall|c: int| 0 <= c < chunk.num_columns()
            ==> (#[trigger] r.columns@[c]).data_type == schema@[c] && r.columns@[c].id == c,
        forall|c: int, m: int|
            0 <= c < chunk.num_columns() && 0 <= m < r.num_rows
                ==> #[trigger] r.cell(c, m) == chunk.cell(
                    c,
                    sel_indices(bits@, bits@.len() as int)[m],
                ),
    {
    let mut keep: Vec<usize> = Vec::new();
    let mut i: usize = 0;
    while i < bits.len()
        invariant
            bits@.len() == chunk.num_rows,
            i <= bits@.len(),
            keep@.len() == count_true(bits@, i as int),
            keep@.map_values(|x: usize| x as int) == sel_indices(bits@, i as int),
            forall|t: int| 0 <= t < keep@.len() ==> (#[trigger] keep@[t]) < chunk.num_rows,
        decreases bits@.len() - i,
    {
        let ghost old_keep = keep@;
        if bits[i] {
            keep.push(i);
        }
        proof {
            assert(keep@.map_values(|x: usize| x as int) =~= sel_indices(
                bits@,
                i as int + 1,
            ));
        }
        i = i + 1;
    }
    proof {
        lemma_sel_indices_in_range(bits@, bits@.len() as int);
    }
    take_rows(chunk, &keep, schema)
}

/// The (batch, row) position a pointer refers to.
pub open spec fn ptr_pair(p: RowPtr) -> (int, int) {
    (p.chunk_index as int, p.row_index as int)
}

/// The positions a pointer list refers to, in list order.
pub open spec fn ptr_pairs(s: Seq<RowPtr>) -> Seq<(int, int)> {
    Seq::new(s.len(), |m: int| ptr_pair(s[m]))
}

/// The positions with a zero count among the first `i` entries of one
/// coverage row (batch `j`), in ascending row order.
pub open spec fn zero_row_pairs(row: Seq<usize>, j: int, i: int) -> Seq<(int, int)>
    decreases i when 0 <= i
{
    if i <= 0 {
        Seq::empty()
    } else if row[i - 1] == 0 {
        zero_row_pairs(row, j, i - 1).push((j, i - 1))
    } else {
        zero_row_pairs(row, j, i - 1)
    }
}

/// All zero-count (batch, row) positions of the first `j` coverage rows,
/// in ascending (batch, row) order.
pub open spec fn zero_pairs(rows: Seq<Vec<usize>>, j: int) -> Seq<(int, int)>
    decreases j when 0 <= j
{
    if j <= 0 {
        Seq::empty()
    } else {
        zero_pairs(rows, j - 1) + zero_row_pairs(rows[j - 1]@, j - 1, rows[j - 1]@.len() as int)
    }
}

/// Whether a recorded match participates in right/full-join row
/// coverage: a full join ignores rows explicitly marked `False` during
/// anti-matching.
pub open spec fn counts_for_coverage(jt: JoinType, p: RowPtr) -> bool {
    !(jt == JoinType::Full && p.marker == Option::Some(MarkerKind::False))
}

/// How many of the first `m` recorded matches cover build row (`j`, `i`).
pub open spec fn count_matches(jt: JoinType, ptrs: Seq<RowPtr>, j: int, i: int, m: int) -> nat
    decreases m when 0 <= m <= ptrs.len()
{
    if m <= 0 {
        0
    } else {
        count_matches(jt, ptrs, j, i, m - 1) + (if ptrs[m - 1].chunk_index == j
            && ptrs[m - 1].row_index == i && counts_for_coverage(jt, ptrs[m - 1]) {
            1nat
        } else {
            0nat
        })
    }
}

/// The flattened cell values of column `c` over the first `k` batches.
pub open spec fn flat_cells(chunks: Seq<Chunk>, c: int, k: int) -> Seq<ScalarV>
    decreases k when 0 <= k <= chunks.len()
{
    if k <= 0 {
        Seq::empty()
    } else {
        flat_cells(chunks, c, k - 1) + chunks[k - 1].col_cells(c)
    }
}

/// Concatenating batches flattens each column: the result's length is the
/// total row count.
proof fn lemma_flat_len(chunks: Seq<Chunk>, c: int, k: int)
    requires
        0 <= k <= chunks.len(),
    ensures
        flat_cells(chunks, c, k).len() == sum_rows(chunks.take(k)),
    decreases k,
{
    if k > 0 {
        lemma_flat_len(chunks, c, k - 1);
        assert(chunks.take(k).drop_last() =~= chunks.take(k - 1));
        assert(chunks.take(k).last() == chunks[k - 1]);
    }
}

/// Concatenates batches that share the given schema into one, column by
/// column, preserving every cell in batch-then-row order.
pub fn concat_chunks(chunks: &Vec<Chunk>, schema: &Vec<DataType>) -> (r: Chunk)
    requires
        forall|k: int| 0 <= k < chunks@.len() ==> (#[trigger] chunks@[k]).wf(),
        forall|k: int| 0 <= k < chunks@.len()
            ==> (#[trigger] chunks@[k]).num_columns() == schema@.len(),
        forall|k: int, c: int, i: int|
            0 <= k < chunks@.len() && 0 <= c < schema@.len() && 0 <= i < chunks@[k].num_rows
                ==> crate::types::conforms(#[trigger] chunks@[k].cell(c, i), schema@[c]),
        sum_rows(chunks@) <= usize::MAX,
    ensures
        r.wf(),
        r.num_rows == sum_rows(chunks@),
        r.num_columns() == schema@.len(),
        forall|c: int| 0 <= c < schema@.len()
            ==> (#[trigger] r.columns@[c]).data_type == schema@[c] && r.columns@[c].id == c,
        forall|c: int| 0 <= c < schema@.len()
            ==> #[trigger] r.col_cells(c) == flat_cells(chunks@, c, chunks@.len() as int),
{
    proof {
        assert(chunks@.take(chunks@.len() as int) =~= chunks@);
    }
    let mut total: usize = 0;
    let mut k: usize = 0;
    while k < chunks.len()
        invariant
            forall|t: int| 0 <= t < chunks@.len() ==> (#[trigger] chunks@[t]).wf(),
            sum_rows(chunks@) <= usize::MAX,
            k <= chunks@.len(),
            total == sum_rows(chunks@.take(k as int)),
            total <= sum_rows(chunks@),
        decreases chunks@.len() - k,
    {
        proof {
            assert(chunks@.take(k as int + 1).drop_last() =~= chunks@.take(k as int));
            assert(chunks@.take(k as int + 1).last() == chunks@[k as int]);
            lemma_sum_rows_take_le(chunks@, k as int + 1);
        }
        total = total + chunks[k].num_rows;
        k = k + 1;
    }
    assert(total == sum_rows(chunks@));

    let mut cols: Vec<ChunkEntry> = Vec::new();
    let mut c: usize = 0;
    while c < schema.len()
        invariant
            forall|t: int| 0 <= t < chunks@.len() ==> (#[trigger] chunks@[t]).wf(),
            forall|t: int| 0 <= t < chunks@.len()
                ==> (#[trigger] chunks@[t]).num_columns() == schema@.len(),
            forall|t: int, c2: int, i: int|
                0 <= t < chunks@.len() && 0 <= c2 < schema@.len() && 0 <= i < chunks@[t].num_rows
                    ==> crate::types::conforms(#[trigger] chunks@[t].cell(c2, i), schema@[c2]),
            total == sum_rows(chunks@),
            c <= schema@.len(),
            cols@.len() == c,
            forall|k2: int| 0 <= k2 < c
                ==> (#[trigger] cols@[k2]).data_type == schema@[k2] && cols@[k2].id == k2
                    && cols@[k2].wf(total as nat),
            forall|k2: int, i: int| 0 <= k2 < c && 0 <= i < total
                ==> #[trigger] cols@[k2].cell(i) == flat_cells(
                    chunks@,
                    k2,
                    chunks@.len() as int,
                )[i],
        decreases schema@.len() - c,
    {
        let mut cells: Vec<Scalar> = Vec::new();
        let mut k: usize = 0;
        while k < chunks.len()
            invariant
                forall|t: int| 0 <= t < chunks@.len() ==> (#[trigger] chunks@[t]).wf(),
                forall|t: int| 0 <= t < chunks@.len()
                    ==> (#[trigger] chunks@[t]).num_columns() == schema@.len(),
                forall|t: int, c2: int, i: int|
                    0 <= t < chunks@.len() && 0 <= c2 < schema@.len() && 0 <= i
                        < chunks@[t].num_rows
                        ==> crate::types::conforms(
                            #[trigger] chunks@[t].cell(c2, i),
                            schema@[c2],
                        ),
                c < schema@.len(),
                k <= chunks@.len(),
                crate::types::cells_view(cells@) == flat_cells(chunks@, c as int, k as int),
                forall|t: int| 0 <= t < cells@.len()
                    ==> crate::types::conforms((#[trigger] cells@[t])@, schema@[c as int]),
            decreases chunks@.len() - k,
        {
            let ch = &chunks[k];
            let mut i: usize = 0;
            while i < ch.num_rows
                invariant
                    forall|t: int| 0 <= t < chunks@.len() ==> (#[trigger] chunks@[t]).wf(),
                    forall|t: int, c2: int, i2: int|
                        0 <= t < chunks@.len() && 0 <= c2 < schema@.len() && 0 <= i2
                            < chunks@[t].num_rows
                            ==> crate::types::conforms(
                                #[trigger] chunks@[t].cell(c2, i2),
                                schema@[c2],
                            ),
                    forall|t: int| 0 <= t < chunks@.len()
                        ==> (#[trigger] chunks@[t]).num_columns() == schema@.len(),
                    c < schema@.len(),
                    k < chunks@.len(),
                    ch == chunks@[k as int],
                    i <= ch.num_rows,
                    crate::types::cells_view(cells@) == flat_cells(chunks@, c as int, k as int)
                        + ch.col_cells(c as int).take(i as int),
                    forall|t: int| 0 <= t < cells@.len()
                        ==> crate::types::conforms((#[trigger] cells@[t])@, schema@[c as int]),
                decreases ch.num_rows - i,
            {
                assert(ch.columns@[c as int].wf(ch.num_rows as nat));
                let s = ch.columns[c].scalar_at(i);
                assert(s@ == ch.cell(c as int, i as int));
                let ghost old_cells = cells@;
                cells.push(s);
                proof {
                    assert(cells@ == old_cells.push(s));
                    assert(ch.col_cells(c as int).take(i as int + 1) =~= ch.col_cells(
                        c as int,
                    ).take(i as int).push(ch.cell(c as int, i as int)));
                    assert(crate::types::cells_view(cells@) =~= crate::types::cells_view(
                        old_cells,
                    ).push(s@));
                    assert(crate::types::cells_view(cells@) =~= flat_cells(
                        chunks@,
                        c as int,
                        k as int,
                    ) + ch.col_cells(c as int).take(i as int + 1));
                }
                i = i + 1;
            }
            proof {
                assert(ch.col_cells(c as int).take(ch.num_rows as int) =~= ch.col_cells(
                    c as int,
                ));
            }
            k = k + 1;
        }
        proof {
            lemma_flat_len(chunks@, c as int, chunks@.len() as int);
            assert(chunks@.take(chunks@.len() as int) =~= chunks@);
        }
        let col = crate::types::build_column(&cells, schema[c]);
        cols.push(ChunkEntry { id: c, value: Value::Column(col), data_type: schema[c] });
        proof {
            assert forall|i: int| 0 <= i < total
                implies #[trigger] cols@[c as int].cell(i) == flat_cells(
                    chunks@,
                    c as int,
                    chunks@.len() as int,
                )[i] by {
                assert(cols@[c as int].cell(i) == crate::types::cells_view(cells@)[i]);
            }
        }
        c = c + 1;
    }
    let r = Chunk { columns: cols, num_rows: total };
    proof {
        assert forall|c2: int| 0 <= c2 < schema@.len()
            implies #[trigger] r.col_cells(c2) == flat_cells(
                chunks@,
                c2,
                chunks@.len() as int,
            ) by {
            lemma_flat_len(chunks@, c2, chunks@.len() as int);
            assert(chunks@.take(chunks@.len() as int) =~= chunks@);
            assert(r.col_cells(c2) =~= flat_cells(chunks@, c2, chunks@.len() as int));
        }
    }
    r
}

/// A prefix's total row count never exceeds the whole's.
proof fn lemma_sum_rows_take_le(s: Seq<Chunk>, k: int)
    requires
        0 <= k <= s.len(),
    ensures
        sum_rows(s.take(k)) <= sum_rows(s),
    decreases s.len(),
{
    if k < s.len() {
        assert(s.drop_last().take(k) =~= s.take(k));
        lemma_sum_rows_take_le(s.drop_last(), k);
    } else {
        assert(s.take(k) =~= s);
    }
}

/// Total rows over a sequence of batches.
pub open spec fn sum_rows(s: Seq<Chunk>) -> nat
    decreases s.len(),
{
    if s.len() == 0 {
        0
    } else {
        sum_rows(s.drop_last()) + s.last().num_rows as nat
    }
}

impl JoinHashTable {
    /// The key tuple a build batch row contributes, per the join's key
    /// column indices.
    pub open spec fn input_key(&self, input: Chunk, i: int) -> Seq<ScalarV> {
        Seq::new(
            self.hash_join_desc.build_keys@.len(),
            |k: int| input.cell(self.hash_join_desc.build_keys@[k] as int, i),
        )
    }

    /// Whether every key expression evaluates over the batch: each key
    /// column index is present, and a constant key column's value is
    /// admissible for its declared type.
    pub open spec fn build_keys_ok(&self, input: Chunk) -> bool {
        forall|k: int| 0 <= k < self.hash_join_desc.build_keys@.len() ==> {
            let idx = (#[trigger] self.hash_join_desc.build_keys@[k]) as int;
            &&& idx < input.num_columns()
            &&& match input.columns@[idx].value {
                Value::Scalar(s) => crate::types::conforms(s@, input.columns@[idx].data_type),
                Value::Column(_) => true,
            }
        }
    }

    /// Whether a build batch is accepted: well-formed, fitting the build
    /// schema, with every key expression evaluable.
    pub open spec fn build_input_ok(&self, input: Chunk) -> bool {
        &&& input.wf()
        &&& input.num_columns() == self.row_space.schema@.len()
        &&& forall|c: int, i: int|
            0 <= c < self.row_space.schema@.len() && 0 <= i < input.num_rows
                ==> crate::types::conforms(#[trigger] input.cell(c, i), self.row_space.schema@[c])
        &&& self.build_keys_ok(input)
    }

    /// Evaluates the join's key expressions over a build batch and hands
    /// the batch with its key columns to the row store. Fails -- leaving
    /// the engine unchanged -- when a key column is missing or the batch
    /// does not fit the build schema; appends otherwise.
    pub fn add_build_block(&mut self, input: Chunk) -> (r: Result<(), ErrorCode>)
        requires
            old(self).wf(),
        ensures
            r is Ok <==> old(self).build_input_ok(input),
            r is Err ==> *final(self) == *old(self),
            r is Err ==> r->Err_0 == (if input.wf() && !old(self).build_keys_ok(input) {
                ErrorCode::Evaluation
            } else {
                ErrorCode::Internal
            }),
            r is Ok ==> {
                &&& final(self).wf()
                &&& final(self).hash_join_desc == old(self).hash_join_desc
                &&& final(self).probe_schema@ == old(self).probe_schema@
                &&& final(self).row_space.schema@ == old(self).row_space.schema@
                &&& final(self).row_space.chunks@ == old(self).row_space.chunks@.push(input)
                &&& forall|i: int| 0 <= i < input.num_rows
                    ==> final(self).row_space.stored_key(
                        old(self).row_space.chunks@.len() as int,
                        i,
                    ) == old(self).input_key(input, i)
                &&& forall|j2: int, i2: int|
                    0 <= j2 < old(self).row_space.chunks@.len() && 0 <= i2
                        < old(self).row_space.chunks@[j2].num_rows
                        ==> final(self).row_space.stored_key(j2, i2) == old(
                            self,
                        ).row_space.stored_key(j2, i2)
            },
    {
        if !input.check_wf() {
            return Err(ErrorCode::Internal);
        }
        let nrows = input.num_rows;
        let mut build_cols: Vec<Column> = Vec::new();
        let mut k: usize = 0;
        while k < self.hash_join_desc.build_keys.len()
            invariant
                input.wf(),
                nrows == input.num_rows,
                k <= self.hash_join_desc.build_keys@.len(),
                build_cols@.len() == k,
                forall|t: int| 0 <= t < k ==> {
                    let idx = (#[trigger] self.hash_join_desc.build_keys@[t]) as int;
                    &&& idx < input.num_columns()
                    &&& match input.columns@[idx].value {
                        Value::Scalar(s) => crate::types::conforms(
                            s@,
                            input.columns@[idx].data_type,
                        ),
                        Value::Column(_) => true,
                    }
                },
                forall|t: int| 0 <= t < k
                    ==> (#[trigger] build_cols@[t]).wf() && build_cols@[t].spec_len() == nrows,
                forall|t: int, i: int| 0 <= t < k && 0 <= i < nrows
                    ==> #[trigger] build_cols@[t].cell(i) == input.cell(
                        self.hash_join_desc.build_keys@[t] as int,
                        i,
                    ),
            decreases self.hash_join_desc.build_keys@.len() - k,
        {
            let idx = self.hash_join_desc.build_keys[k];
            if idx >= input.columns.len() {
                assert(!self.build_keys_ok(input));
                return Err(ErrorCode::Evaluation);
            }
            let entry = &input.columns[idx];
            assert(entry.wf(nrows as nat));
            let col: Column = match &entry.value {
                Value::Column(c) => c.dup(),
                Value::Scalar(s) => {
                    if !crate::types::scalar_conforms(s, entry.data_type) {
                        assert(!self.build_keys_ok(input));
                        return Err(ErrorCode::Evaluation);
                    }
                    let mut cells: Vec<Scalar> = Vec::new();
                    while cells.len() < nrows
                        invariant
                            cells@.len() <= nrows,
                            forall|t: int| 0 <= t < cells@.len()
                                ==> (#[trigger] cells@[t])@ == s@,
                        decreases nrows - cells@.len(),
                    {
                        cells.push(s.dup());
                    }
                    crate::types::build_column(&cells, entry.data_type)
                },
            };
            build_cols.push(col);
            k = k + 1;
        }
        assert(self.build_keys_ok(input));
        let ghost pre = *self;
        match self.row_space.push_cols(input, build_cols) {
            Ok(()) => {
                proof {
                    assert forall|i: int| 0 <= i < input.num_rows
                        implies self.row_space.stored_key(pre.row_space.chunks@.len() as int, i)
                            == pre.input_key(input, i) by {
                        assert(self.row_space.stored_key(pre.row_space.chunks@.len() as int, i)
                            == crate::row_space::row_key(build_cols@, i));
                        assert(crate::row_space::row_key(build_cols@, i) =~= pre.input_key(
                            input,
                            i,
                        ));
                    }
                }
                Ok(())
            },
            Err(e) => Err(e),
        }
    }

    /// Records the cancellation request in the shared state; build and
    /// probe operations observe it at batch granularity and stop
    /// producing further batches.
    pub fn interrupt(&mut self)
        ensures
            final(self).hash_join_desc.join_state.interrupted,
            final(self).row_space == old(self).row_space,
            final(self).probe_schema == old(self).probe_schema,
            final(self).hash_join_desc.join_type == old(self).hash_join_desc.join_type,
            final(self).hash_join_desc.build_keys == old(self).hash_join_desc.build_keys,
            final(self).hash_join_desc.probe_keys == old(self).hash_join_desc.probe_keys,
            final(self).hash_join_desc.other_predicate == old(
                self,
            ).hash_join_desc.other_predicate,
            final(self).hash_join_desc.join_state.build_indexes == old(
                self,
            ).hash_join_desc.join_state.build_indexes,
            final(self).hash_join_desc.join_state.rest_probe_chunks == old(
                self,
            ).hash_join_desc.join_state.rest_probe_chunks,
            final(self).hash_join_desc.join_state.rest_build_indexes == old(
                self,
            ).hash_join_desc.join_state.rest_build_indexes,
            final(self).hash_join_desc.join_state.validity == old(
                self,
            ).hash_join_desc.join_state.validity,
            old(self).wf() ==> final(self).wf(),
    {
        self.hash_join_desc.join_state.interrupted = true;
    }

    /// Per-row match coverage for right/full joins: how many recorded
    /// probe matches cover each stored build row (a full join ignores
    /// matches marked `False`). A zero identifies an unmatched build row.
    pub fn row_state_for_right_join(&self) -> (r: Result<Vec<Vec<usize>>, ErrorCode>)
        requires
            self.wf(),
        ensures
            r is Ok,
            (r->Ok_0)@.len() == self.row_space.chunks@.len(),
            forall|j: int| 0 <= j < self.row_space.chunks@.len()
                ==> ((r->Ok_0)@[j])@.len() == self.row_space.chunks@[j].num_rows,
            forall|j: int, i: int|
                0 <= j < self.row_space.chunks@.len() && 0 <= i
                    < self.row_space.chunks@[j].num_rows
                    ==> ((r->Ok_0)@[j])@[i] == count_matches(
                        self.hash_join_desc.join_type,
                        self.hash_join_desc.join_state.build_indexes@,
                        j,
                        i,
                        self.hash_join_desc.join_state.build_indexes@.len() as int,
                    ),
    {
        let ptrs = &self.hash_join_desc.join_state.build_indexes;
        let jt = self.hash_join_desc.join_type;
        let mut row_state: Vec<Vec<usize>> = Vec::new();
        let mut j: usize = 0;
        while j < self.row_space.chunks.len()
            invariant
                self.wf(),
                jt == self.hash_join_desc.join_type,
                ptrs == self.hash_join_desc.join_state.build_indexes,
                j <= self.row_space.chunks@.len(),
                row_state@.len() == j,
                forall|j2: int| 0 <= j2 < j
                    ==> ((#[trigger] row_state@[j2])@).len()
                        == self.row_space.chunks@[j2].num_rows,
                forall|j2: int, i2: int|
                    0 <= j2 < j && 0 <= i2 < self.row_space.chunks@[j2].num_rows
                        ==> ((row_state@[j2])@)[i2] == count_matches(
                            jt,
                            ptrs@,
                            j2,
                            i2,
                            ptrs@.len() as int,
                        ),
            decreases self.row_space.chunks@.len() - j,
        {
            let nrows = self.row_space.chunks[j].num_rows;
            let mut rows: Vec<usize> = Vec::new();
            let mut i: usize = 0;
            while i < nrows
                invariant
                    self.wf(),
                    jt == self.hash_join_desc.join_type,
                    ptrs == self.hash_join_desc.join_state.build_indexes,
                    j < self.row_space.chunks@.len(),
                    nrows == self.row_space.chunks@[j as int].num_rows,
                    i <= nrows,
                    rows@.len() == i,
                    forall|i2: int| 0 <= i2 < i
                        ==> rows@[i2] == count_matches(jt, ptrs@, j as int, i2, ptrs@.len() as int),
                decreases nrows - i,
            {
                let mut cnt: usize = 0;
                let mut m: usize = 0;
                while m < ptrs.len()
                    invariant
                        jt == self.hash_join_desc.join_type,
                        ptrs == self.hash_join_desc.join_state.build_indexes,
                        m <= ptrs@.len(),
                        cnt <= m,
                        cnt == count_matches(jt, ptrs@, j as int, i as int, m as int),
                    decreases ptrs@.len() - m,
                {
                    let p = ptrs[m];
                    let skip = matches!(jt, JoinType::Full) && matches!(
                        p.marker,
                        Option::Some(MarkerKind::False)
                    );
                    if p.chunk_index == j && p.row_index == i && !skip {
                        cnt = cnt + 1;
                    }
                    m = m + 1;
                }
                rows.push(cnt);
                i = i + 1;
            }
            row_state.push(rows);
            j = j + 1;
        }
        Ok(row_state)
    }

    /// Finds every build row no probe row covered, in ascending storage
    /// order. Law: a build row's coverage count is zero if and only if
    /// the row appears here (and then exactly once); the result is
    /// exactly the sequence of zero-count positions, so its length is
    /// their number.
    pub fn find_unmatched_build_indexes(&self, row_state: &Vec<Vec<usize>>) -> (r: Result<
        Vec<RowPtr>,
        ErrorCode,
    >)
        requires
            self.wf(),
            row_state@.len() == self.row_space.chunks@.len(),
            forall|j: int| 0 <= j < row_state@.len()
                ==> ((#[trigger] row_state@[j])@).len() == self.row_space.chunks@[j].num_rows,
        ensures
            r is Ok,
            ptr_pairs((r->Ok_0)@) == zero_pairs(row_state@, row_state@.len() as int),
            (r->Ok_0)@.len() == zero_pairs(row_state@, row_state@.len() as int).len(),
            forall|m1: int, m2: int| 0 <= m1 < m2 < (r->Ok_0)@.len()
                ==> ((#[trigger] (r->Ok_0)@[m1]).chunk_index < (#[trigger] (
                r->Ok_0)@[m2]).chunk_index || ((r->Ok_0)@[m1].chunk_index == (
                r->Ok_0)@[m2].chunk_index && (r->Ok_0)@[m1].row_index < (
                r->Ok_0)@[m2].row_index)),
            self.row_space.ptrs_valid((r->Ok_0)@),
            forall|m: int| 0 <= m < (r->Ok_0)@.len() ==> {
                let p = (#[trigger] (r->Ok_0)@[m]);
                ((row_state@[p.chunk_index as int])@)[p.row_index as int] == 0
                    && p.marker is None
            },
            forall|j: int, i: int|
                0 <= j < self.row_space.chunks@.len() && 0 <= i
                    < self.row_space.chunks@[j].num_rows && ((row_state@[j])@)[i] == 0
                    ==> exists|m: int|
                        0 <= m < (r->Ok_0)@.len() && ((#[trigger] (r->Ok_0)@[m]).chunk_index == j
                            && (r->Ok_0)@[m].row_index == i),
            forall|m1: int, m2: int| 0 <= m1 < m2 < (r->Ok_0)@.len()
                ==> !((#[trigger] (r->Ok_0)@[m1]).chunk_index == (#[trigger] (
                r->Ok_0)@[m2]).chunk_index && (r->Ok_0)@[m1].row_index == (
                r->Ok_0)@[m2].row_index),
    {
        let mut unmatched: Vec<RowPtr> = Vec::new();
        let mut j: usize = 0;
        while j < self.row_space.chunks.len()
            invariant
                self.wf(),
                row_state@.len() == self.row_space.chunks@.len(),
                forall|j2: int| 0 <= j2 < row_state@.len()
                    ==> ((#[trigger] row_state@[j2])@).len()
                        == self.row_space.chunks@[j2].num_rows,
                j <= self.row_space.chunks@.len(),
                self.row_space.ptrs_valid(unmatched@),
                ptr_pairs(unmatched@) == zero_pairs(row_state@, j as int),
                forall|m1: int, m2: int| 0 <= m1 < m2 < unmatched@.len()
                    ==> ((#[trigger] unmatched@[m1]).chunk_index
                        < (#[trigger] unmatched@[m2]).chunk_index || (unmatched@[m1].chunk_index
                        == unmatched@[m2].chunk_index && unmatched@[m1].row_index
                        < unmatched@[m2].row_index)),
                forall|m: int| 0 <= m < unmatched@.len() ==> {
                    let p = (#[trigger] unmatched@[m]);
                    ((row_state@[p.chunk_index as int])@)[p.row_index as int] == 0
                        && p.marker is None && p.chunk_index < j
                },
                forall|j2: int, i2: int|
                    0 <= j2 < j && 0 <= i2 < self.row_space.chunks@[j2].num_rows
                        && ((row_state@[j2])@)[i2] == 0
                        ==> exists|m: int|
                            0 <= m < unmatched@.len() && ((#[trigger] unmatched@[m]).chunk_index
                                == j2 && unmatched@[m].row_index == i2),
                forall|m1: int, m2: int| 0 <= m1 < m2 < unmatched@.len()
                    ==> !((#[trigger] unmatched@[m1]).chunk_index == (#[trigger] unmatched@[m2]).chunk_index
                        && unmatched@[m1].row_index == unmatched@[m2].row_index),
            decreases self.row_space.chunks@.len() - j,
        {
            let nrows = self.row_space.chunks[j].num_rows;
            let mut i: usize = 0;
            while i < nrows
                invariant
                    self.wf(),
                    row_state@.len() == self.row_space.chunks@.len(),
                    forall|j2: int| 0 <= j2 < row_state@.len()
                        ==> ((#[trigger] row_state@[j2])@).len()
                            == self.row_space.chunks@[j2].num_rows,
                    j < self.row_space.chunks@.len(),
                    nrows == self.row_space.chunks@[j as int].num_rows,
                    i <= nrows,
                    self.row_space.ptrs_valid(unmatched@),
                    ptr_pairs(unmatched@) == zero_pairs(row_state@, j as int) + zero_row_pairs(
                        (row_state@[j as int])@,
                        j as int,
                        i as int,
                    ),
                    forall|m1: int, m2: int| 0 <= m1 < m2 < unmatched@.len()
                        ==> ((#[trigger] unmatched@[m1]).chunk_index
                            < (#[trigger] unmatched@[m2]).chunk_index
                            || (unmatched@[m1].chunk_index == unmatched@[m2].chunk_index
                            && unmatched@[m1].row_index < unmatched@[m2].row_index)),
                    forall|m: int| 0 <= m < unmatched@.len() ==> {
                        let p = (#[trigger] unmatched@[m]);
                        ((row_state@[p.chunk_index as int])@)[p.row_index as int] == 0
                            && p.marker is None && (p.chunk_index < j || (p.chunk_index == j
                            && p.row_index < i))
                    },
                    forall|j2: int, i2: int|
                        0 <= j2 < self.row_space.chunks@.len() && 0 <= i2
                            < self.row_space.chunks@[j2].num_rows && (j2 < j || (j2 == j && i2
                            < i)) && ((row_state@[j2])@)[i2] == 0
                            ==> exists|m: int|
                                0 <= m < unmatched@.len() && ((#[trigger] unmatched@[m]).chunk_index
                                    == j2 && unmatched@[m].row_index == i2),
                    forall|m1: int, m2: int| 0 <= m1 < m2 < unmatched@.len()
                        ==> !((#[trigger] unmatched@[m1]).chunk_index == (#[trigger] unmatched@[m2]).chunk_index
                            && unmatched@[m1].row_index == unmatched@[m2].row_index),
                decreases nrows - i,
            {
                let ghost old_un = unmatched@;
                if row_state[j][i] == 0 {
                    let p = RowPtr::new(j, i);
                    unmatched.push(p);
                    proof {
                        assert(unmatched@ == old_un.push(p));
                        assert(zero_row_pairs(
                            (row_state@[j as int])@,
                            j as int,
                            i as int + 1,
                        ) == zero_row_pairs((row_state@[j as int])@, j as int, i as int).push(
                            (j as int, i as int),
                        ));
                    }
                } else {
                    proof {
                        assert(zero_row_pairs(
                            (row_state@[j as int])@,
                            j as int,
                            i as int + 1,
                        ) == zero_row_pairs((row_state@[j as int])@, j as int, i as int));
                    }
                }
                proof {
                    let target = zero_pairs(row_state@, j as int) + zero_row_pairs(
                        (row_state@[j as int])@,
                        j as int,
                        i as int + 1,
                    );
                    assert(ptr_pairs(old_un) == zero_pairs(row_state@, j as int)
                        + zero_row_pairs((row_state@[j as int])@, j as int, i as int));
                    assert(ptr_pairs(old_un).len() == old_un.len());
                    assert(old_un.len() == zero_pairs(row_state@, j as int).len()
                        + zero_row_pairs((row_state@[j as int])@, j as int, i as int).len());
                    assert(unmatched@.len() == target.len());
                    assert forall|t: int| 0 <= t < unmatched@.len()
                        implies ptr_pairs(unmatched@)[t] == target[t] by {
                        if t < old_un.len() {
                            assert(unmatched@[t] == old_un[t]);
                            assert(ptr_pairs(old_un)[t] == ptr_pair(old_un[t]));
                        }
                    }
                    assert(ptr_pairs(unmatched@) =~= target);
                    assert forall|j2: int, i2: int|
                        0 <= j2 < self.row_space.chunks@.len() && 0 <= i2
                            < self.row_space.chunks@[j2].num_rows && (j2 < j || (j2 == j && i2
                            < i + 1)) && ((row_state@[j2])@)[i2] == 0
                        implies exists|m: int|
                            0 <= m < unmatched@.len() && ((#[trigger] unmatched@[m]).chunk_index
                                == j2 && unmatched@[m].row_index == i2) by {
                        if j2 == j && i2 == i {
                            assert(unmatched@[unmatched@.len() - 1].chunk_index == j2
                                && unmatched@[unmatched@.len() - 1].row_index == i2);
                        } else {
                            let m = choose|m: int|
                                0 <= m < old_un.len() && ((#[trigger] old_un[m]).chunk_index == j2
                                    && old_un[m].row_index == i2);
                            assert(unmatched@[m].chunk_index == j2
                                && unmatched@[m].row_index == i2);
                        }
                    }
                }
                i = i + 1;
            }
            proof {
                assert(ptr_pairs(unmatched@) =~= zero_pairs(row_state@, j as int + 1));
            }
            j = j + 1;
        }
        proof {
            assert(ptr_pairs(unmatched@).len() == unmatched@.len());
        }
        Ok(unmatched)
    }

    /// Materializes the unmatched build rows and pairs each with an
    /// all-null probe-side row: the tail batch a right/full join appends
    /// after the probe-driven stream. For a full join the build columns
    /// are additionally made nullable.
    pub fn null_chunks_for_right_join(&self, unmatched_build_indexes: &Vec<RowPtr>) -> (r: Result<
        Chunk,
        ErrorCode,
    >)
        requires
            self.wf(),
            self.row_space.ptrs_valid(unmatched_build_indexes@),
        ensures
            r is Ok,
            r->Ok_0.wf(),
            r->Ok_0.num_rows == unmatched_build_indexes@.len(),
            r->Ok_0.num_columns() == self.probe_schema@.len() + self.row_space.schema@.len(),
            forall|c: int, i: int|
                0 <= c < self.probe_schema@.len() && 0 <= i < unmatched_build_indexes@.len()
                    ==> #[trigger] r->Ok_0.cell(c, i) == ScalarV::Null,
            forall|c: int, i: int|
                0 <= c < self.row_space.schema@.len() && 0 <= i < unmatched_build_indexes@.len()
                    ==> #[trigger] r->Ok_0.cell(self.probe_schema@.len() + c, i)
                        == self.row_space.cell_of(unmatched_build_indexes@[i], c),
            forall|c: int| 0 <= c < self.probe_schema@.len()
                ==> (#[trigger] r->Ok_0.columns@[c]).data_type == self.probe_schema@[c]
                    && r->Ok_0.columns@[c].value is Scalar,
            forall|c: int| 0 <= c < self.row_space.schema@.len()
                ==> (#[trigger] r->Ok_0.columns@[self.probe_schema@.len() + c]).data_type
                    == self.row_space.schema@[c]
                    && r->Ok_0.columns@[self.probe_schema@.len() + c].value is Column,
            // a full join wraps every build column nullable; a right join
            // leaves the build columns exactly as gathered
            self.hash_join_desc.join_type == JoinType::Full && unmatched_build_indexes@.len() > 0
                ==> forall|c: int| 0 <= c < self.row_space.schema@.len() ==> {
                    let col = (#[trigger] r->Ok_0.columns@[self.probe_schema@.len()
                        + c]).value->Column_0;
                    &&& (col is Nullable <==> self.row_space.schema@[c] != DataType::Null)
                    &&& (col is Null <==> self.row_space.schema@[c] == DataType::Null)
                },
            self.hash_join_desc.join_type != JoinType::Full ==> forall|c: int|
                0 <= c < self.row_space.schema@.len() ==> {
                    let col = (#[trigger] r->Ok_0.columns@[self.probe_schema@.len()
                        + c]).value->Column_0;
                    &&& (col is Nullable <==> (self.row_space.schema@[c].spec_is_nullable()
                        && self.row_space.schema@[c] != DataType::Null))
                    &&& (col is Null <==> self.row_space.schema@[c] == DataType::Null)
                },
    {
        let mut unmatched_build_chunk = self.row_space.gather(unmatched_build_indexes);
        let num_rows = unmatched_build_chunk.num_rows;
        if matches!(self.hash_join_desc.join_type, JoinType::Full) {
            let mut probe_validity: Vec<bool> = Vec::new();
            while probe_validity.len() < num_rows
                invariant
                    probe_validity@.len() <= num_rows,
                    forall|t: int| 0 <= t < probe_validity@.len()
                        ==> #[trigger] probe_validity@[t],
                decreases num_rows - probe_validity@.len(),
            {
                probe_validity.push(true);
            }
            let ghost gathered = unmatched_build_chunk;
            let mut nullable_cols: Vec<ChunkEntry> = Vec::new();
            let mut c: usize = 0;
            while c < unmatched_build_chunk.columns.len()
                invariant
                    gathered.wf(),
                    unmatched_build_chunk == gathered,
                    num_rows == gathered.num_rows,
                    gathered.num_columns() == self.row_space.schema@.len(),
                    forall|k: int| 0 <= k < self.row_space.schema@.len()
                        ==> (#[trigger] gathered.columns@[k]).value is Column,
                    probe_validity@.len() == num_rows,
                    forall|t: int| 0 <= t < num_rows ==> #[trigger] probe_validity@[t],
                    c <= gathered.num_columns(),
                    nullable_cols@.len() == c,
                    forall|k: int| 0 <= k < c
                        ==> (#[trigger] nullable_cols@[k]).wf(num_rows as nat),
                    forall|k: int, i: int| 0 <= k < c && 0 <= i < num_rows
                        ==> #[trigger] nullable_cols@[k].cell(i) == gathered.cell(k, i),
                    forall|k: int| 0 <= k < self.row_space.schema@.len() ==> {
                        let col = (#[trigger] gathered.columns@[k]).value->Column_0;
                        &&& (col is Nullable <==> (self.row_space.schema@[k].spec_is_nullable()
                            && self.row_space.schema@[k] != DataType::Null))
                        &&& (col is Null <==> self.row_space.schema@[k] == DataType::Null)
                    },
                    forall|k: int| 0 <= k < self.row_space.schema@.len()
                        ==> (#[trigger] gathered.columns@[k]).data_type
                            == self.row_space.schema@[k],
                    forall|k: int| 0 <= k < c
                        ==> (#[trigger] nullable_cols@[k]).data_type
                            == self.row_space.schema@[k] && nullable_cols@[k].value is Column,
                    num_rows > 0 ==> forall|k: int| 0 <= k < c ==> {
                        let col = (#[trigger] nullable_cols@[k]).value->Column_0;
                        &&& (col is Nullable <==> self.row_space.schema@[k] != DataType::Null)
                        &&& (col is Null <==> self.row_space.schema@[k] == DataType::Null)
                    },
                decreases gathered.num_columns() - c,
            {
                let entry = &unmatched_build_chunk.columns[c];
                assert(entry == gathered.columns@[c as int]);
                assert(entry.wf(num_rows as nat));
                assert(entry.value is Column);
                let wrapped = Self::set_validity(entry, &probe_validity);
                proof {
                    assert forall|i: int| 0 <= i < num_rows
                        implies wrapped.cell(i) == gathered.cell(c as int, i) by {
                        assert(probe_validity@[i]);
                    }
                }
                nullable_cols.push(wrapped);
                c = c + 1;
            }
            unmatched_build_chunk = Chunk { columns: nullable_cols, num_rows };
        }
        let mut null_probe_cols: Vec<ChunkEntry> = Vec::new();
        let mut c: usize = 0;
        while c < self.probe_schema.len()
            invariant
                c <= self.probe_schema@.len(),
                null_probe_cols@.len() == c,
                forall|k: int| 0 <= k < c ==> (#[trigger] null_probe_cols@[k]).value is Scalar
                    && null_probe_cols@[k].value->Scalar_0 is Null
                    && null_probe_cols@[k].data_type == self.probe_schema@[k],
            decreases self.probe_schema@.len() - c,
        {
            null_probe_cols.push(
                ChunkEntry {
                    id: c,
                    value: Value::Scalar(Scalar::Null),
                    data_type: self.probe_schema[c],
                },
            );
            c = c + 1;
        }
        let null_probe_chunk = Chunk {
            columns: null_probe_cols,
            num_rows: unmatched_build_indexes.len(),
        };
        self.merge_eq_chunk(&unmatched_build_chunk, &null_probe_chunk)
    }

    /// Drains the batches deferred for residual-predicate evaluation:
    /// concatenates them, gathers their matched build rows, applies the
    /// accumulated null-extension bitmap to the build side when the join
    /// type null-extends it (scalar-null-filling if the build side is
    /// empty), and merges the two sides. Empty state yields an empty
    /// batch.
    pub fn rest_chunk(&self) -> (r: Result<Chunk, ErrorCode>)
        requires
            self.wf(),
            sum_rows(self.hash_join_desc.join_state.rest_probe_chunks@) <= usize::MAX,
        ensures
            r is Ok,
            r->Ok_0.wf(),
            self.hash_join_desc.join_state.rest_probe_chunks@.len() == 0
                ==> r->Ok_0.num_rows == 0 && r->Ok_0.num_columns() == 0,
            self.hash_join_desc.join_state.rest_probe_chunks@.len() > 0 ==> {
                let st = self.hash_join_desc.join_state;
                let pn = self.probe_schema@.len() as int;
                &&& r->Ok_0.num_rows == st.rest_build_indexes@.len()
                &&& r->Ok_0.num_columns() == pn + self.row_space.schema@.len()
                &&& forall|c: int| 0 <= c < pn
                    ==> #[trigger] r->Ok_0.col_cells(c) == flat_cells(
                        st.rest_probe_chunks@,
                        c,
                        st.rest_probe_chunks@.len() as int,
                    )
                &&& forall|c: int, i: int|
                    0 <= c < self.row_space.schema@.len() && 0 <= i
                        < st.rest_build_indexes@.len()
                        ==> #[trigger] r->Ok_0.cell(pn + c, i) == (if matches!(
                            self.hash_join_desc.join_type,
                            JoinType::Left | JoinType::Single | JoinType::Full
                        ) {
                            if self.row_space.chunks@.len() > 0 && st.validity@[i] {
                                self.row_space.cell_of(st.rest_build_indexes@[i], c)
                            } else {
                                ScalarV::Null
                            }
                        } else {
                            self.row_space.cell_of(st.rest_build_indexes@[i], c)
                        })
            },
    {
        if self.hash_join_desc.join_state.rest_probe_chunks.len() == 0 {
            return Ok(Chunk::empty());
        }
        let probe_chunk = concat_chunks(
            &self.hash_join_desc.join_state.rest_probe_chunks,
            &self.probe_schema,
        );
        let mut build_chunk = self.row_space.gather(
            &self.hash_join_desc.join_state.rest_build_indexes,
        );
        let ghost gathered = build_chunk;
        if matches!(
            self.hash_join_desc.join_type,
            JoinType::Left | JoinType::Single | JoinType::Full
        ) {
            let validity = &self.hash_join_desc.join_state.validity;
            let num_rows = validity.len();
            if self.row_space.chunks.len() == 0 {
                let mut nullable_cols: Vec<ChunkEntry> = Vec::new();
                let mut c: usize = 0;
                while c < build_chunk.columns.len()
                    invariant
                        gathered.wf(),
                        build_chunk == gathered,
                        c <= gathered.num_columns(),
                        nullable_cols@.len() == c,
                        forall|k: int| 0 <= k < c
                            ==> (#[trigger] nullable_cols@[k]).value is Scalar
                                && nullable_cols@[k].value->Scalar_0 is Null,
                    decreases gathered.num_columns() - c,
                {
                    let entry = &build_chunk.columns[c];
                    nullable_cols.push(
                        ChunkEntry {
                            id: entry.id,
                            value: Value::Scalar(Scalar::Null),
                            data_type: entry.data_type,
                        },
                    );
                    c = c + 1;
                }
                build_chunk = Chunk { columns: nullable_cols, num_rows };
            } else {
                let mut nullable_cols: Vec<ChunkEntry> = Vec::new();
                let mut c: usize = 0;
                while c < build_chunk.columns.len()
                    invariant
                        gathered.wf(),
                        build_chunk == gathered,
                        gathered.num_rows == num_rows,
                        gathered.num_columns() == self.row_space.schema@.len(),
                        forall|k: int| 0 <= k < self.row_space.schema@.len()
                            ==> (#[trigger] gathered.columns@[k]).value is Column,
                        validity@.len() == num_rows,
                        c <= gathered.num_columns(),
                        nullable_cols@.len() == c,
                        forall|k: int| 0 <= k < c
                            ==> (#[trigger] nullable_cols@[k]).wf(num_rows as nat),
                        forall|k: int, i: int| 0 <= k < c && 0 <= i < num_rows
                            ==> #[trigger] nullable_cols@[k].cell(i) == (if validity@[i] {
                                gathered.cell(k, i)
                            } else {
                                ScalarV::Null
                            }),
                    decreases gathered.num_columns() - c,
                {
                    let entry = &build_chunk.columns[c];
                    assert(entry == gathered.columns@[c as int]);
                    assert(entry.wf(num_rows as nat));
                    assert(entry.value is Column);
                    let wrapped = Self::set_validity(entry, validity);
                    proof {
                        assert forall|i: int| 0 <= i < num_rows
                            implies wrapped.cell(i) == (if validity@[i] {
                                gathered.cell(c as int, i)
                            } else {
                                ScalarV::Null
                            }) by {
                            let col0 = entry.value->Column_0;
                            if col0 is Null {
                                assert(gathered.cell(c as int, i) == ScalarV::Null);
                            }
                        }
                    }
                    nullable_cols.push(wrapped);
                    c = c + 1;
                }
                build_chunk = Chunk { columns: nullable_cols, num_rows };
            }
        }
        let merged = self.merge_eq_chunk(&build_chunk, &probe_chunk);
        proof {
            let m = merged->Ok_0;
            let st = self.hash_join_desc.join_state;
            assert forall|c: int| 0 <= c < self.probe_schema@.len()
                implies #[trigger] m.col_cells(c) == flat_cells(
                    st.rest_probe_chunks@,
                    c,
                    st.rest_probe_chunks@.len() as int,
                ) by {
                assert(m.col_cells(c) =~= probe_chunk.col_cells(c));
            }
        }
        merged
    }

    /// The uncovered positions (zero right/full coverage) among the
    /// first `i` rows of build batch `j`, in ascending row order.
    pub open spec fn uncovered_row_pairs(&self, j: int, i: int) -> Seq<(int, int)>
        decreases i when 0 <= i
    {
        let ptrs = self.hash_join_desc.join_state.build_indexes@;
        if i <= 0 {
            Seq::empty()
        } else if count_matches(
            self.hash_join_desc.join_type,
            ptrs,
            j,
            i - 1,
            ptrs.len() as int,
        ) == 0 {
            self.uncovered_row_pairs(j, i - 1).push((j, i - 1))
        } else {
            self.uncovered_row_pairs(j, i - 1)
        }
    }

    /// All uncovered build positions of the first `j` stored batches, in
    /// ascending (batch, row) order.
    pub open spec fn uncovered_pairs(&self, j: int) -> Seq<(int, int)>
        decreases j when 0 <= j
    {
        if j <= 0 {
            Seq::empty()
        } else {
            self.uncovered_pairs(j - 1) + self.uncovered_row_pairs(
                j - 1,
                self.row_space.chunks@[j - 1].num_rows as int,
            )
        }
    }

    /// A coverage row holding the exact per-row match counts has its
    /// zeros exactly at the uncovered positions.
    proof fn lemma_zero_row_pairs_match(&self, row: Seq<usize>, j: int, i: int)
        requires
            0 <= i <= row.len(),
            forall|i2: int| 0 <= i2 < row.len() ==> (#[trigger] row[i2]) == count_matches(
                self.hash_join_desc.join_type,
                self.hash_join_desc.join_state.build_indexes@,
                j,
                i2,
                self.hash_join_desc.join_state.build_indexes@.len() as int,
            ),
        ensures
            zero_row_pairs(row, j, i) == self.uncovered_row_pairs(j, i),
        decreases i,
    {
        if i > 0 {
            self.lemma_zero_row_pairs_match(row, j, i - 1);
        }
    }

    /// A coverage matrix holding the exact per-row match counts has its
    /// zeros exactly at the uncovered positions.
    proof fn lemma_zero_pairs_match(&self, rows: Seq<Vec<usize>>, j: int)
        requires
            0 <= j <= rows.len(),
            rows.len() == self.row_space.chunks@.len(),
            forall|j2: int| 0 <= j2 < rows.len()
                ==> ((#[trigger] rows[j2])@).len() == self.row_space.chunks@[j2].num_rows,
            forall|j2: int, i2: int|
                0 <= j2 < rows.len() && 0 <= i2 < (rows[j2])@.len()
                    ==> (#[trigger] rows[j2]@[i2]) == count_matches(
                        self.hash_join_desc.join_type,
                        self.hash_join_desc.join_state.build_indexes@,
                        j2,
                        i2,
                        self.hash_join_desc.join_state.build_indexes@.len() as int,
                    ),
        ensures
            zero_pairs(rows, j) == self.uncovered_pairs(j),
        decreases j,
    {
        if j > 0 {
            self.lemma_zero_pairs_match(rows, j - 1);
            self.lemma_zero_row_pairs_match(rows[j - 1]@, j - 1, rows[j - 1]@.len() as int);
        }
    }

    /// Whether row `m` of the finalization tail carries the build cells
    /// of source row `i` (columns offset by the probe column count).
    pub open spec fn tail_row_is(tail: Chunk, pn: int, bn: int, m: int, src: Chunk, i: int) -> bool {
        forall|c: int| 0 <= c < bn ==> #[trigger] tail.cell(pn + c, m) == src.cell(c, i)
    }

    /// What right/full-join finalization returns: every accumulated batch
    /// unchanged, followed by one tail batch that lists, in ascending
    /// storage order, exactly the build rows no probe row covered --
    /// each exactly once, paired with an all-null probe side, and
    /// nothing else.
    pub open spec fn right_join_output_ok(&self, chunks: Seq<Chunk>, out: Seq<Chunk>) -> bool {
        let jt = self.hash_join_desc.join_type;
        let ptrs = self.hash_join_desc.join_state.build_indexes@;
        let pn = self.probe_schema@.len() as int;
        let bn = self.row_space.schema@.len() as int;
        &&& out.len() == chunks.len() + 1
        &&& forall|k: int| 0 <= k < chunks.len() ==> {
            &&& (#[trigger] out[k]).num_rows == chunks[k].num_rows
            &&& out[k].num_columns() == chunks[k].num_columns()
            &&& forall|c: int, i: int|
                0 <= c < chunks[k].num_columns() && 0 <= i < chunks[k].num_rows
                    ==> #[trigger] out[k].cell(c, i) == chunks[k].cell(c, i)
        }
        &&& out.last().wf()
        &&& out.last().num_columns() == pn + bn
        &&& forall|c: int, m: int| 0 <= c < pn && 0 <= m < out.last().num_rows
            ==> #[trigger] out.last().cell(c, m) == ScalarV::Null
        &&& forall|j: int, i: int|
            0 <= j < self.row_space.chunks@.len() && 0 <= i < self.row_space.chunks@[j].num_rows
                && count_matches(jt, ptrs, j, i, ptrs.len() as int) == 0
                ==> exists|m: int|
                    0 <= m < out.last().num_rows && #[trigger] Self::tail_row_is(
                        out.last(),
                        pn,
                        bn,
                        m,
                        self.row_space.chunks@[j],
                        i,
                    )
        &&& out.last().num_rows == self.uncovered_pairs(
            self.row_space.chunks@.len() as int,
        ).len()
        &&& forall|m: int| 0 <= m < out.last().num_rows
            ==> #[trigger] Self::tail_row_is(
                out.last(),
                pn,
                bn,
                m,
                self.row_space.chunks@[self.uncovered_pairs(
                    self.row_space.chunks@.len() as int,
                )[m].0],
                self.uncovered_pairs(self.row_space.chunks@.len() as int)[m].1,
            )
    }

    /// Right/full-join finalization: computes per-row coverage, finds the
    /// uncovered build rows, materializes them against an all-null probe
    /// side, and appends that tail after the accumulated batches. Under
    /// cancellation it reports nothing further.
    pub fn right_join_chunks(&self, chunks: &Vec<Chunk>) -> (r: Result<Vec<Chunk>, ErrorCode>)
        requires
            self.wf(),
            forall|k: int| 0 <= k < chunks@.len() ==> (#[trigger] chunks@[k]).wf(),
        ensures
            r is Ok,
            self.hash_join_desc.join_state.interrupted ==> (r->Ok_0)@.len() == 0,
            !self.hash_join_desc.join_state.interrupted
                ==> self.right_join_output_ok(chunks@, (r->Ok_0)@),
    {
        if self.hash_join_desc.join_state.interrupted {
            return Ok(Vec::new());
        }
        let row_state = match self.row_state_for_right_join() {
            Ok(rs) => rs,
            Err(e) => {
                return Err(e);
            },
        };
        let unmatched = match self.find_unmatched_build_indexes(&row_state) {
            Ok(u) => u,
            Err(e) => {
                return Err(e);
            },
        };
        let tail = match self.null_chunks_for_right_join(&unmatched) {
            Ok(t) => t,
            Err(e) => {
                return Err(e);
            },
        };
        let mut out: Vec<Chunk> = Vec::new();
        let mut k: usize = 0;
        while k < chunks.len()
            invariant
                forall|t: int| 0 <= t < chunks@.len() ==> (#[trigger] chunks@[t]).wf(),
                k <= chunks@.len(),
                out@.len() == k,
                forall|t: int| 0 <= t < k ==> {
                    &&& (#[trigger] out@[t]).num_rows == chunks@[t].num_rows
                    &&& out@[t].num_columns() == chunks@[t].num_columns()
                    &&& forall|c: int, i: int|
                        0 <= c < chunks@[t].num_columns() && 0 <= i < chunks@[t].num_rows
                            ==> #[trigger] out@[t].cell(c, i) == chunks@[t].cell(c, i)
                },
            decreases chunks@.len() - k,
        {
            out.push(chunks[k].dup());
            k = k + 1;
        }
        out.push(tail);
        proof {
            let jt = self.hash_join_desc.join_type;
            let ptrs = self.hash_join_desc.join_state.build_indexes@;
            let pn = self.probe_schema@.len() as int;
            let bn = self.row_space.schema@.len() as int;
            assert(out@.last() == tail);
            assert forall|j: int, i: int|
                0 <= j < self.row_space.chunks@.len() && 0 <= i
                    < self.row_space.chunks@[j].num_rows
                    && count_matches(jt, ptrs, j, i, ptrs.len() as int) == 0
                implies exists|m: int|
                    0 <= m < out@.last().num_rows && #[trigger] Self::tail_row_is(
                        out@.last(),
                        pn,
                        bn,
                        m,
                        self.row_space.chunks@[j],
                        i,
                    ) by {
                assert(((row_state@[j])@)[i] == 0);
                let m = choose|m: int|
                    0 <= m < unmatched@.len() && ((#[trigger] unmatched@[m]).chunk_index == j
                        && unmatched@[m].row_index == i);
                assert forall|c: int| 0 <= c < bn
                    implies #[trigger] tail.cell(pn + c, m)
                        == self.row_space.chunks@[j].cell(c, i) by {
                    assert(tail.cell(pn + c, m) == self.row_space.cell_of(unmatched@[m], c));
                }
                assert(Self::tail_row_is(
                    out@.last(),
                    pn,
                    bn,
                    m,
                    self.row_space.chunks@[j],
                    i,
                ));
                assert(0 <= m < out@.last().num_rows);
            }
            self.lemma_zero_pairs_match(row_state@, row_state@.len() as int);
            let nchunks = self.row_space.chunks@.len() as int;
            assert(ptr_pairs(unmatched@) == self.uncovered_pairs(nchunks));
            assert(out@.last().num_rows == self.uncovered_pairs(nchunks).len()) by {
                assert(ptr_pairs(unmatched@).len() == unmatched@.len());
            }
            assert forall|m: int| 0 <= m < out@.last().num_rows
                implies #[trigger] Self::tail_row_is(
                    out@.last(),
                    pn,
                    bn,
                    m,
                    self.row_space.chunks@[self.uncovered_pairs(nchunks)[m].0],
                    self.uncovered_pairs(nchunks)[m].1,
                ) by {
                let pr = self.uncovered_pairs(nchunks)[m];
                assert(ptr_pairs(unmatched@)[m] == ptr_pair(unmatched@[m]));
                assert(pr.0 == unmatched@[m].chunk_index as int
                    && pr.1 == unmatched@[m].row_index as int);
                assert forall|c: int| 0 <= c < bn
                    implies #[trigger] out@.last().cell(pn + c, m)
                        == self.row_space.chunks@[pr.0].cell(c, pr.1) by {
                    assert(tail.cell(pn + c, m) == self.row_space.cell_of(unmatched@[m], c));
                }
            }
        }
        Ok(out)
    }
}

} // verus!
