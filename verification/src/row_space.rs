//! Append-only storage of build-side row batches plus the derived key
//! index: each appended batch gets the next index, and every row is
//! recorded in the index under its exact key. A key with a null
//! component never matches during probing (the probe side filters it),
//! but the row is still reachable through a lookup on that exact key.

use vstd::prelude::*;

use crate::desc::RowPtr;
use crate::types::build_column;
use crate::types::conforms;
use crate::types::scalar_conforms;
use crate::types::Chunk;
use crate::types::ChunkEntry;
use crate::types::Column;
use crate::types::DataType;
use crate::types::Scalar;
use crate::types::ScalarV;
use crate::types::Value;
use crate::ErrorCode;

verus! {

/// Mathematical view of a key tuple.
pub open spec fn key_view(k: Seq<Scalar>) -> Seq<ScalarV> {
    k.map_values(|s: Scalar| s@)
}

/// A key with no null component. Probing skips rows whose key has a
/// null component, so a null never equals anything during matching.
pub open spec fn key_nonnull(k: Seq<ScalarV>) -> bool {
    forall|c: int| 0 <= c < k.len() ==> !((#[trigger] k[c]) is Null)
}

/// The key tuple of row `i` over the given key columns.
pub open spec fn row_key(cols: Seq<Column>, i: int) -> Seq<ScalarV> {
    Seq::new(cols.len(), |c: int| cols[c].cell(i))
}

/// Value equality of two key tuples.
pub fn key_same(a: &Vec<Scalar>, b: &Vec<Scalar>) -> (r: bool)
    ensures
        r == (key_view(a@) == key_view(b@)),
{
    if a.len() != b.len() {
        assert(key_view(a@).len() != key_view(b@).len());
        return false;
    }
    let mut i: usize = 0;
    while i < a.len()
        invariant
            a@.len() == b@.len(),
            i <= a@.len(),
            forall|k: int| 0 <= k < i ==> key_view(a@)[k] == key_view(b@)[k],
        decreases a@.len() - i,
    {
        if !a[i].same(&b[i]) {
            assert(key_view(a@)[i as int] != key_view(b@)[i as int]);
            return false;
        }
        i = i + 1;
    }
    assert(key_view(a@) =~= key_view(b@));
    true
}

/// Materializes the key tuple of row `i` of the given key columns.
pub fn key_at(cols: &Vec<Column>, i: usize) -> (r: Vec<Scalar>)
    requires
        forall|c: int| 0 <= c < cols@.len() ==> (#[trigger] cols@[c]).wf(),
        forall|c: int| 0 <= c < cols@.len() ==> i < (#[trigger] cols@[c]).spec_len(),
    ensures
        key_view(r@) == row_key(cols@, i as int),
{
    let mut r: Vec<Scalar> = Vec::new();
    let mut c: usize = 0;
    while c < cols.len()
        invariant
            forall|k: int| 0 <= k < cols@.len() ==> (#[trigger] cols@[k]).wf(),
            forall|k: int| 0 <= k < cols@.len() ==> i < (#[trigger] cols@[k]).spec_len(),
            c <= cols@.len(),
            r@.len() == c,
            forall|k: int| 0 <= k < c ==> (#[trigger] r@[k])@ == cols@[k].cell(i as int),
        decreases cols@.len() - c,
    {
        r.push(cols[c].scalar_at(i));
        c = c + 1;
    }
    assert(key_view(r@) =~= row_key(cols@, i as int));
    r
}

/// Whether some component of the key tuple is null.
pub fn key_has_null(k: &Vec<Scalar>) -> (r: bool)
    ensures
        r == !key_nonnull(key_view(k@)),
{
    let mut i: usize = 0;
    while i < k.len()
        invariant
            i <= k@.len(),
            forall|c: int| 0 <= c < i ==> !((#[trigger] key_view(k@)[c]) is Null),
        decreases k@.len() - i,
    {
        if k[i].is_null() {
            assert(key_view(k@)[i as int] is Null);
            return true;
        }
        i = i + 1;
    }
    assert(key_nonnull(key_view(k@)));
    false
}

/// Whether every cell of the batch is admissible for the schema.
pub fn chunk_conforms(chunk: &Chunk, schema: &Vec<DataType>) -> (r: bool)
    requires
        chunk.wf(),
        chunk.num_columns() == schema@.len(),
    ensures
        r == forall|c: int, i: int|
            0 <= c < schema@.len() && 0 <= i < chunk.num_rows
                ==> conforms(#[trigger] chunk.cell(c, i), schema@[c]),
{
    let mut c: usize = 0;
    while c < chunk.columns.len()
        invariant
            chunk.wf(),
            chunk.num_columns() == schema@.len(),
            c <= schema@.len(),
            forall|c2: int, i2: int|
                0 <= c2 < c && 0 <= i2 < chunk.num_rows
                    ==> conforms(#[trigger] chunk.cell(c2, i2), schema@[c2]),
        decreases chunk.columns@.len() - c,
    {
        let entry = &chunk.columns[c];
        assert(entry.wf(chunk.num_rows as nat));
        let mut i: usize = 0;
        while i < chunk.num_rows
            invariant
                chunk.wf(),
                chunk.num_columns() == schema@.len(),
                c < schema@.len(),
                entry == chunk.columns@[c as int],
                i <= chunk.num_rows,
                forall|i2: int| 0 <= i2 < i
                    ==> conforms(#[trigger] chunk.cell(c as int, i2), schema@[c as int]),
            decreases chunk.num_rows - i,
        {
            let s = entry.scalar_at(i);
            if !scalar_conforms(&s, schema[c]) {
                assert(!conforms(chunk.cell(c as int, i as int), schema@[c as int]));
                return false;
            }
            i = i + 1;
        }
        c = c + 1;
    }
    true
}

/// Finds the index bucket bearing the key, if any.
fn find_bucket(index: &Vec<IndexEntry>, key: &Vec<Scalar>) -> (r: Option<usize>)
    ensures
        match r {
            Option::Some(e) => e < index@.len()
                && key_view(index@[e as int].key@) == key_view(key@),
            Option::None => forall|e: int|
                0 <= e < index@.len() ==> key_view((#[trigger] index@[e]).key@) != key_view(key@),
        },
{
    let mut e: usize = 0;
    while e < index.len()
        invariant
            e <= index@.len(),
            forall|k: int| 0 <= k < e
                ==> key_view((#[trigger] index@[k]).key@) != key_view(key@),
        decreases index@.len() - e,
    {
        if key_same(&index[e].key, key) {
            return Option::Some(e);
        }
        e = e + 1;
    }
    Option::None
}

/// Copies the stored key tuple of row `i` of batch `j`.
fn key_at_stored(keys: &Vec<Vec<Vec<Scalar>>>, j: usize, i: usize) -> (r: Vec<Scalar>)
    requires
        j < keys@.len(),
        i < keys@[j as int]@.len(),
    ensures
        key_view(r@) == key_view(keys@[j as int]@[i as int]@),
{
    let row = &keys[j][i];
    let mut r: Vec<Scalar> = Vec::new();
    let mut c: usize = 0;
    while c < row.len()
        invariant
            row == keys@[j as int]@[i as int],
            c <= row@.len(),
            r@.len() == c,
            forall|k: int| 0 <= k < c ==> (#[trigger] r@[k])@ == row@[k]@,
        decreases row@.len() - c,
    {
        r.push(row[c].dup());
        c = c + 1;
    }
    assert(key_view(r@) =~= key_view(keys@[j as int]@[i as int]@));
    r
}

/// One bucket of the key index: a key and, in arrival order, every stored
/// row bearing that key.
pub struct IndexEntry {
    pub key: Vec<Scalar>,
    pub ptrs: Vec<RowPtr>,
}

/// Whether the bucket records row (`j`, `i`).
pub open spec fn entry_contains(e: IndexEntry, j: int, i: int) -> bool {
    exists|m: int| 0 <= m < e.ptrs@.len()
        && (#[trigger] e.ptrs@[m]).chunk_index == j && e.ptrs@[m].row_index == i
}

/// Whether some bucket bearing `key` records row (`j`, `i`).
pub open spec fn row_indexed(index: Seq<IndexEntry>, key: Seq<ScalarV>, j: int, i: int) -> bool {
    exists|e: int| 0 <= e < index.len()
        && key_view((#[trigger] index[e]).key@) == key && entry_contains(index[e], j, i)
}

/// Growing the index -- new buckets at the end, new pointers at a
/// bucket's end -- never unrecords a row.
proof fn lemma_index_extends(pre: Seq<IndexEntry>, post: Seq<IndexEntry>)
    requires
        pre.len() <= post.len(),
        forall|e: int| 0 <= e < pre.len()
            ==> key_view((#[trigger] post[e]).key@) == key_view(pre[e].key@),
        forall|e: int| 0 <= e < pre.len()
            ==> (#[trigger] post[e]).ptrs@.len() >= pre[e].ptrs@.len(),
        forall|e: int, m: int| 0 <= e < pre.len() && 0 <= m < pre[e].ptrs@.len()
            ==> (#[trigger] post[e].ptrs@[m]) == pre[e].ptrs@[m],
    ensures
        forall|k: Seq<ScalarV>, j: int, i: int|
            #[trigger] row_indexed(pre, k, j, i) ==> row_indexed(post, k, j, i),
{
    assert forall|k: Seq<ScalarV>, j: int, i: int|
        #[trigger] row_indexed(pre, k, j, i) implies row_indexed(post, k, j, i) by {
        let e = choose|e: int| 0 <= e < pre.len()
            && key_view((#[trigger] pre[e]).key@) == k && entry_contains(pre[e], j, i);
        let m = choose|m: int| 0 <= m < pre[e].ptrs@.len()
            && (#[trigger] pre[e].ptrs@[m]).chunk_index == j && pre[e].ptrs@[m].row_index == i;
        assert((post[e].ptrs@[m]).chunk_index == j && post[e].ptrs@[m].row_index == i);
        assert(entry_contains(post[e], j, i));
        assert(key_view(post[e].key@) == k);
    }
}

/// Append-only build-side storage: the batches in arrival order, the key
/// tuple of every stored row, the key index, and whether some build key
/// had a null component (needed for null-aware mark-join semantics).
pub struct RowSpace {
    pub schema: Vec<DataType>,
    pub chunks: Vec<Chunk>,
    pub keys: Vec<Vec<Vec<Scalar>>>,
    pub index: Vec<IndexEntry>,
    pub has_null: bool,
}

impl RowSpace {
    /// The key under which row `i` of batch `j` was stored.
    pub open spec fn stored_key(&self, j: int, i: int) -> Seq<ScalarV> {
        key_view(self.keys@[j]@[i]@)
    }

    pub open spec fn wf(&self) -> bool {
        &&& self.chunks@.len() == self.keys@.len()
        &&& forall|j: int| 0 <= j < self.chunks@.len() ==> (#[trigger] self.chunks@[j]).wf()
        &&& forall|j: int| 0 <= j < self.chunks@.len()
            ==> (#[trigger] self.chunks@[j]).num_columns() == self.schema@.len()
        &&& forall|j: int, c: int, i: int|
            0 <= j < self.chunks@.len() && 0 <= c < self.schema@.len()
                && 0 <= i < self.chunks@[j].num_rows
                ==> conforms(#[trigger] self.chunks@[j].cell(c, i), self.schema@[c])
        &&& forall|j: int| 0 <= j < self.keys@.len()
            ==> (#[trigger] self.keys@[j])@.len() == self.chunks@[j].num_rows
        &&& self.sound()
        &&& self.complete()
        &&& self.keys_distinct()
        &&& self.ptrs_distinct()
    }

    /// Soundness: each bucket's pointers land inside stored batches, on
    /// rows whose stored key equals the bucket key.
    pub open spec fn sound(&self) -> bool {
        forall|e: int, m: int|
            0 <= e < self.index@.len() && 0 <= m < self.index@[e].ptrs@.len() ==> {
                let p = (#[trigger] self.index@[e].ptrs@[m]);
                &&& p.chunk_index < self.chunks@.len()
                &&& p.row_index < self.chunks@[p.chunk_index as int].num_rows
                &&& self.stored_key(p.chunk_index as int, p.row_index as int)
                    == key_view(self.index@[e].key@)
            }
    }

    /// Completeness: every stored row is recorded in a bucket bearing its
    /// exact key.
    pub open spec fn complete(&self) -> bool {
        forall|j: int, i: int|
            0 <= j < self.chunks@.len() && 0 <= i < self.chunks@[j].num_rows
                ==> row_indexed(self.index@, #[trigger] self.stored_key(j, i), j, i)
    }

    /// Bucket keys are pairwise distinct.
    pub open spec fn keys_distinct(&self) -> bool {
        forall|e1: int, e2: int|
            0 <= e1 < e2 < self.index@.len()
                ==> key_view((#[trigger] self.index@[e1]).key@)
                    != key_view((#[trigger] self.index@[e2]).key@)
    }

    /// No bucket records the same row twice.
    pub open spec fn ptrs_distinct(&self) -> bool {
        forall|e: int, m1: int, m2: int|
            0 <= e < self.index@.len() && 0 <= m1 < m2 < self.index@[e].ptrs@.len()
                ==> !((#[trigger] self.index@[e].ptrs@[m1]).chunk_index
                    == (#[trigger] self.index@[e].ptrs@[m2]).chunk_index
                    && self.index@[e].ptrs@[m1].row_index == self.index@[e].ptrs@[m2].row_index)
    }

    /// Empty storage for a build side with the given output schema.
    pub fn new(schema: Vec<DataType>) -> (r: RowSpace)
        ensures
            r.wf(),
            r.schema@ == schema@,
            r.chunks@.len() == 0,
            r.index@.len() == 0,
            !r.has_null,
    {
        RowSpace {
            schema,
            chunks: Vec::new(),
            keys: Vec::new(),
            index: Vec::new(),
            has_null: false,
        }
    }

    /// Whether a build batch and its evaluated key columns are accepted:
    /// the batch is well-formed, fits the build schema cell by cell, and
    /// every key column is well-formed with one cell per row.
    pub open spec fn accepts(&self, chunk: Chunk, build_cols: Seq<Column>) -> bool {
        &&& chunk.wf()
        &&& chunk.num_columns() == self.schema@.len()
        &&& forall|c: int, i: int|
            0 <= c < self.schema@.len() && 0 <= i < chunk.num_rows
                ==> conforms(#[trigger] chunk.cell(c, i), self.schema@[c])
        &&& forall|c: int| 0 <= c < build_cols.len() ==> (#[trigger] build_cols[c]).wf()
        &&& forall|c: int| 0 <= c < build_cols.len()
            ==> (#[trigger] build_cols[c]).spec_len() == chunk.num_rows
    }

    /// Appends a build batch: stores it at the next index, derives each
    /// row's key from the evaluated key columns, and indexes every row
    /// under its exact key (rows with a null key component included;
    /// they are recorded for reachability and flagged in `has_null`, and
    /// the probe side keeps them from ever matching). Rejects a batch
    /// that does not fit the build schema.
    pub fn push_cols(&mut self, chunk: Chunk, build_cols: Vec<Column>) -> (r: Result<
        (),
        ErrorCode,
    >)
        requires
            old(self).wf(),
        ensures
            r is Ok <==> old(self).accepts(chunk, build_cols@),
            r is Err ==> *final(self) == *old(self) && r->Err_0 == ErrorCode::Internal,
            r is Ok ==> {
                &&& final(self).wf()
                &&& final(self).schema@ == old(self).schema@
                &&& final(self).chunks@ == old(self).chunks@.push(chunk)
                &&& forall|i: int| 0 <= i < chunk.num_rows
                    ==> final(self).stored_key(old(self).chunks@.len() as int, i)
                        == row_key(build_cols@, i)
                &&& forall|j2: int, i2: int|
                    0 <= j2 < old(self).chunks@.len() && 0 <= i2 < old(self).chunks@[j2].num_rows
                        ==> final(self).stored_key(j2, i2) == old(self).stored_key(j2, i2)
                &&& (final(self).has_null <==> (old(self).has_null || exists|i: int|
                    0 <= i < chunk.num_rows && !key_nonnull(#[trigger] row_key(build_cols@, i))))
            },
    {
        let nrows = chunk.num_rows;
        if !chunk.check_wf() {
            return Err(ErrorCode::Internal);
        }
        if chunk.columns.len() != self.schema.len() {
            return Err(ErrorCode::Internal);
        }
        if !chunk_conforms(&chunk, &self.schema) {
            return Err(ErrorCode::Internal);
        }
        let mut c: usize = 0;
        while c < build_cols.len()
            invariant
                nrows == chunk.num_rows,
                c <= build_cols@.len(),
                forall|k: int| 0 <= k < c
                    ==> (#[trigger] build_cols@[k]).wf() && build_cols@[k].spec_len() == nrows,
            decreases build_cols@.len() - c,
        {
            let col_ok = build_cols[c].check_wf();
            if !col_ok {
                assert(!build_cols@[c as int].wf());
                return Err(ErrorCode::Internal);
            }
            if build_cols[c].len() != nrows {
                assert(build_cols@[c as int].spec_len() != chunk.num_rows);
                return Err(ErrorCode::Internal);
            }
            c = c + 1;
        }
        assert(old(self).accepts(chunk, build_cols@));

        // Materialize every row's key before mutating anything.
        let mut rowkeys: Vec<Vec<Scalar>> = Vec::new();
        let mut any_null = false;
        let mut i: usize = 0;
        while i < nrows
            invariant
                i <= nrows,
                rowkeys@.len() == i,
                forall|c2: int| 0 <= c2 < build_cols@.len()
                    ==> (#[trigger] build_cols@[c2]).wf() && build_cols@[c2].spec_len() == nrows,
                forall|k: int| 0 <= k < i
                    ==> key_view((#[trigger] rowkeys@[k])@) == row_key(build_cols@, k),
                any_null <==> exists|k: int|
                    0 <= k < i && !key_nonnull(#[trigger] row_key(build_cols@, k)),
            decreases nrows - i,
        {
            let k = key_at(&build_cols, i);
            if key_has_null(&k) {
                any_null = true;
            }
            rowkeys.push(k);
            i = i + 1;
        }

        let j = self.chunks.len();
        let ghost old_keys = self.keys@;
        self.chunks.push(chunk);
        self.keys.push(rowkeys);
        if any_null {
            self.has_null = true;
        }
        let ghost snap = *self;

        proof {
            assert forall|j2: int, i2: int|
                0 <= j2 < snap.chunks@.len() && 0 <= i2 < snap.chunks@[j2].num_rows && j2 < j
                implies row_indexed(self.index@, #[trigger] snap.stored_key(j2, i2), j2, i2) by {
                assert(snap.stored_key(j2, i2) == old(self).stored_key(j2, i2));
                assert(row_indexed(old(self).index@, old(self).stored_key(j2, i2), j2, i2));
            }
        }

        let mut i: usize = 0;
        while i < nrows
            invariant
                i <= nrows,
                self.schema@ == snap.schema@,
                self.chunks@ == snap.chunks@,
                self.keys@ == snap.keys@,
                self.has_null == snap.has_null,
                snap.chunks@.len() == j + 1,
                j < self.keys@.len(),
                self.chunks@[j as int].num_rows == nrows,
                self.keys@[j as int]@.len() == nrows,
                self.chunks@.len() == self.keys@.len(),
                forall|j2: int| 0 <= j2 < self.chunks@.len()
                    ==> (#[trigger] self.chunks@[j2]).wf(),
                forall|j2: int| 0 <= j2 < self.chunks@.len()
                    ==> (#[trigger] self.chunks@[j2]).num_columns() == self.schema@.len(),
                forall|j2: int, c2: int, i2: int|
                    0 <= j2 < self.chunks@.len() && 0 <= c2 < self.schema@.len()
                        && 0 <= i2 < self.chunks@[j2].num_rows
                        ==> conforms(#[trigger] self.chunks@[j2].cell(c2, i2), self.schema@[c2]),
                forall|j2: int| 0 <= j2 < self.keys@.len()
                    ==> (#[trigger] self.keys@[j2])@.len() == self.chunks@[j2].num_rows,
                self.sound(),
                self.keys_distinct(),
                self.ptrs_distinct(),
                // no bucket reaches into the unprocessed tail of the new batch
                forall|e: int, m: int|
                    0 <= e < self.index@.len() && 0 <= m < self.index@[e].ptrs@.len()
                        && (#[trigger] self.index@[e].ptrs@[m]).chunk_index == j
                        ==> self.index@[e].ptrs@[m].row_index < i,
                // rows of older batches, and processed rows of the new one, are indexed
                forall|j2: int, i2: int|
                    0 <= j2 < snap.chunks@.len() && 0 <= i2 < snap.chunks@[j2].num_rows
                        && (j2 < j || i2 < i)
                        ==> row_indexed(self.index@, #[trigger] snap.stored_key(j2, i2), j2, i2),
            decreases nrows - i,
        {
            let key = key_at_stored(&self.keys, j, i);
            assert(key_view(key@) == snap.stored_key(j as int, i as int));
            assert(key_view(key@) == self.stored_key(j as int, i as int));
            let ghost pre = self.index@;
            {
                match find_bucket(&self.index, &key) {
                    Option::Some(e) => {
                        let mut ent = self.index.remove(e);
                        let ghost oldent = ent;
                        ent.ptrs.push(RowPtr::new(j, i));
                        self.index.insert(e, ent);
                        proof {
                            assert(self.index@ =~= pre.update(e as int, ent));
                            assert(forall|e2: int| 0 <= e2 < pre.len() && e2 != e
                                ==> (#[trigger] self.index@[e2]) == pre[e2]);
                            lemma_index_extends(pre, self.index@);
                            assert(entry_contains(
                                self.index@[e as int],
                                j as int,
                                i as int,
                            )) by {
                                assert(self.index@[e as int].ptrs@[oldent.ptrs@.len() as int]
                                    .chunk_index == j);
                            }
                            assert(row_indexed(
                                self.index@,
                                snap.stored_key(j as int, i as int),
                                j as int,
                                i as int,
                            ));
                        }
                    },
                    Option::None => {
                        let mut ptrs: Vec<RowPtr> = Vec::new();
                        ptrs.push(RowPtr::new(j, i));
                        self.index.push(IndexEntry { key, ptrs });
                        proof {
                            assert(forall|e2: int| 0 <= e2 < pre.len()
                                ==> (#[trigger] self.index@[e2]) == pre[e2]);
                            lemma_index_extends(pre, self.index@);
                            assert(entry_contains(
                                self.index@[pre.len() as int],
                                j as int,
                                i as int,
                            )) by {
                                assert(self.index@[pre.len() as int].ptrs@[0].chunk_index == j);
                            }
                            assert(row_indexed(
                                self.index@,
                                snap.stored_key(j as int, i as int),
                                j as int,
                                i as int,
                            ));
                        }
                    },
                }
            }
            proof {
                assert forall|j2: int, i2: int|
                    0 <= j2 < snap.chunks@.len() && 0 <= i2 < snap.chunks@[j2].num_rows
                        && (j2 < j || i2 < i + 1)
                    implies row_indexed(
                        self.index@,
                        #[trigger] snap.stored_key(j2, i2),
                        j2,
                        i2,
                    ) by {
                    if !(j2 == j && i2 == i) {
                        assert(row_indexed(pre, snap.stored_key(j2, i2), j2, i2));
                    }
                }
            }
            i = i + 1;
        }
        proof {
            assert forall|j2: int, i2: int|
                0 <= j2 < self.chunks@.len() && 0 <= i2 < self.chunks@[j2].num_rows
                implies row_indexed(self.index@, #[trigger] self.stored_key(j2, i2), j2, i2) by {
                assert(self.stored_key(j2, i2) == snap.stored_key(j2, i2));
            }
            assert forall|i2: int| 0 <= i2 < chunk.num_rows
                implies #[trigger] self.stored_key(old(self).chunks@.len() as int, i2)
                    == row_key(build_cols@, i2) by {
                assert(key_view(rowkeys@[i2]@) == row_key(build_cols@, i2));
            }
            assert forall|j2: int, i2: int|
                0 <= j2 < old(self).chunks@.len() && 0 <= i2 < old(self).chunks@[j2].num_rows
                implies #[trigger] self.stored_key(j2, i2) == old(self).stored_key(j2, i2) by {
                assert(self.keys@[j2] == old(self).keys@[j2]);
            }
        }
        assert(self.complete());
        Ok(())
    }

    /// Whether every pointer refers to a stored row.
    pub open spec fn ptrs_valid(&self, ptrs: Seq<RowPtr>) -> bool {
        forall|m: int| 0 <= m < ptrs.len() ==> {
            let p = #[trigger] ptrs[m];
            &&& p.chunk_index < self.chunks@.len()
            &&& p.row_index < self.chunks@[p.chunk_index as int].num_rows
        }
    }

    /// The stored cell a pointer refers to, in column `c`.
    pub open spec fn cell_of(&self, p: RowPtr, c: int) -> ScalarV {
        self.chunks@[p.chunk_index as int].cell(c, p.row_index as int)
    }

    /// Materializes a new batch holding, in the given order, the rows the
    /// pointers refer to. An empty input yields an empty batch that still
    /// carries the build schema.
    pub fn gather(&self, ptrs: &Vec<RowPtr>) -> (r: Chunk)
        requires
            self.wf(),
            self.ptrs_valid(ptrs@),
        ensures
            r.wf(),
            r.num_rows == ptrs@.len(),
            r.num_columns() == self.schema@.len(),
            forall|c: int| 0 <= c < self.schema@.len()
                ==> (#[trigger] r.columns@[c]).data_type == self.schema@[c]
                    && r.columns@[c].id == c && r.columns@[c].value is Column,
            forall|c: int| 0 <= c < self.schema@.len() ==> {
                let col = (#[trigger] r.columns@[c]).value->Column_0;
                &&& (col is Nullable <==> (self.schema@[c].spec_is_nullable()
                    && self.schema@[c] != DataType::Null))
                &&& (col is Null <==> self.schema@[c] == DataType::Null)
            },
            forall|c: int, m: int| 0 <= c < self.schema@.len() && 0 <= m < ptrs@.len()
                ==> #[trigger] r.cell(c, m) == self.cell_of(ptrs@[m], c),
    {
        let mut cols: Vec<ChunkEntry> = Vec::new();
        let mut c: usize = 0;
        while c < self.schema.len()
            invariant
                self.wf(),
                self.ptrs_valid(ptrs@),
                c <= self.schema@.len(),
                cols@.len() == c,
                forall|k: int| 0 <= k < c
                    ==> (#[trigger] cols@[k]).data_type == self.schema@[k] && cols@[k].id == k
                        && cols@[k].wf(ptrs@.len() as nat) && cols@[k].value is Column,
                forall|k: int| 0 <= k < c ==> {
                    let col = (#[trigger] cols@[k]).value->Column_0;
                    &&& (col is Nullable <==> (self.schema@[k].spec_is_nullable()
                        && self.schema@[k] != DataType::Null))
                    &&& (col is Null <==> self.schema@[k] == DataType::Null)
                },
                forall|k: int, m: int| 0 <= k < c && 0 <= m < ptrs@.len()
                    ==> #[trigger] cols@[k].cell(m) == self.cell_of(ptrs@[m], k),
            decreases self.schema@.len() - c,
        {
            let mut cells: Vec<Scalar> = Vec::new();
            let mut m: usize = 0;
            while m < ptrs.len()
                invariant
                    self.wf(),
                    self.ptrs_valid(ptrs@),
                    c < self.schema@.len(),
                    m <= ptrs@.len(),
                    cells@.len() == m,
                    forall|k: int| 0 <= k < m
                        ==> (#[trigger] cells@[k])@ == self.cell_of(ptrs@[k], c as int),
                    forall|k: int| 0 <= k < m
                        ==> conforms((#[trigger] cells@[k])@, self.schema@[c as int]),
                decreases ptrs@.len() - m,
            {
                let p = ptrs[m];
                let ch = &self.chunks[p.chunk_index];
                assert(ch.columns@[c as int].wf(ch.num_rows as nat));
                let s = ch.columns[c].scalar_at(p.row_index);
                assert(s@ == self.chunks@[p.chunk_index as int].cell(
                    c as int,
                    p.row_index as int,
                ));
                assert(conforms(s@, self.schema@[c as int]));
                cells.push(s);
                m = m + 1;
            }
            let col = build_column(&cells, self.schema[c]);
            cols.push(
                ChunkEntry { id: c, value: Value::Column(col), data_type: self.schema[c] },
            );
            c = c + 1;
        }
        Chunk { columns: cols, num_rows: ptrs.len() }
    }

    /// Law: every stored row is reachable through the index: looking its
    /// exact key up yields a bucket whose pointers include the row and
    /// are all valid to hand to `gather`, which then reproduces the
    /// stored cells.
    pub proof fn lemma_row_reachable(&self, j: int, i: int)
        requires
            self.wf(),
            0 <= j < self.chunks@.len(),
            0 <= i < self.chunks@[j].num_rows,
        ensures
            row_indexed(self.index@, self.stored_key(j, i), j, i),
            forall|e: int| 0 <= e < self.index@.len()
                ==> self.ptrs_valid((#[trigger] self.index@[e]).ptrs@),
    {
        assert forall|e: int| 0 <= e < self.index@.len()
            implies self.ptrs_valid((#[trigger] self.index@[e]).ptrs@) by {
            assert forall|m: int| 0 <= m < self.index@[e].ptrs@.len() implies {
                let p = #[trigger] self.index@[e].ptrs@[m];
                &&& p.chunk_index < self.chunks@.len()
                &&& p.row_index < self.chunks@[p.chunk_index as int].num_rows
            } by {
                assert(0 <= e < self.index@.len() && 0 <= m < self.index@[e].ptrs@.len());
            }
        }
    }

    /// Looks the key up in the index: the bucket's rows, or nothing when
    /// no stored row bears the key.
    pub fn entry(&self, key: &Vec<Scalar>) -> (r: Option<&Vec<RowPtr>>)
        requires
            self.wf(),
        ensures
            match r {
                Option::Some(v) => exists|e: int|
                    0 <= e < self.index@.len()
                        && key_view((#[trigger] self.index@[e]).key@) == key_view(key@)
                        && v@ == self.index@[e].ptrs@,
                Option::None => forall|e: int|
                    0 <= e < self.index@.len()
                        ==> key_view((#[trigger] self.index@[e]).key@) != key_view(key@),
            },
    {
        let mut e: usize = 0;
        while e < self.index.len()
            invariant
                e <= self.index@.len(),
                forall|k: int| 0 <= k < e
                    ==> key_view((#[trigger] self.index@[k]).key@) != key_view(key@),
            decreases self.index@.len() - e,
        {
            if key_same(&self.index[e].key, key) {
                return Option::Some(&self.index[e].ptrs);
            }
            e = e + 1;
        }
        Option::None
    }
}

} // verus!
