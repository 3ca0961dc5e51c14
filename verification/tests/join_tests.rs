use hash_join::common::JoinHashTable;
use hash_join::compact::RightJoinCompactor;
use hash_join::desc::HashJoinDesc;
use hash_join::desc::JoinState;
use hash_join::desc::JoinType;
use hash_join::desc::MarkerKind;
use hash_join::desc::RowPtr;
use hash_join::expr::Expr;
use hash_join::types::Chunk;
use hash_join::types::ChunkEntry;
use hash_join::types::Column;
use hash_join::types::DataType;
use hash_join::types::NullableColumn;
use hash_join::types::Scalar;
use hash_join::types::Value;
use hash_join::ErrorCode;

fn num_col(id: usize, vals: Vec<i64>) -> ChunkEntry {
    ChunkEntry { id, value: Value::Column(Column::Number(vals)), data_type: DataType::Number }
}

fn text_col(id: usize, vals: Vec<&str>) -> ChunkEntry {
    let owned: Vec<String> = vals.into_iter().map(String::from).collect();
    ChunkEntry { id, value: Value::Column(Column::Text(owned)), data_type: DataType::Text }
}

fn two_col_chunk(nums: Vec<i64>, texts: Vec<&str>) -> Chunk {
    let n = nums.len();
    Chunk { columns: vec![num_col(0, nums), text_col(1, texts)], num_rows: n }
}

fn fresh_table(join_type: JoinType) -> JoinHashTable {
    let desc = HashJoinDesc {
        join_type,
        build_keys: vec![0],
        probe_keys: vec![0],
        other_predicate: None,
        join_state: JoinState::new(),
    };
    JoinHashTable::create(
        desc,
        vec![DataType::Number, DataType::Text],
        vec![DataType::Number, DataType::Text],
    )
}

fn cell(chunk: &Chunk, c: usize, i: usize) -> Scalar {
    chunk.columns[c].scalar_at(i)
}

fn expect_num(chunk: &Chunk, c: usize, i: usize, want: i64) {
    assert!(cell(chunk, c, i).same(&Scalar::Num(want)));
}

fn expect_text(chunk: &Chunk, c: usize, i: usize, want: &str) {
    assert!(cell(chunk, c, i).same(&Scalar::Text(String::from(want))));
}

fn expect_null(chunk: &Chunk, c: usize, i: usize) {
    assert!(cell(chunk, c, i).is_null());
}

#[test]
fn inner_join_scenario() {
    let mut table = fresh_table(JoinType::Inner);
    table.add_build_block(two_col_chunk(vec![1, 2], vec!["a", "b"])).unwrap();
    let probe = two_col_chunk(vec![1, 3], vec!["x", "y"]);
    let out = table.probe_chunk(&probe).unwrap();
    assert_eq!(out.len(), 1);
    let merged = &out[0];
    assert_eq!(merged.num_rows, 1);
    assert_eq!(merged.columns.len(), 4);
    expect_num(merged, 0, 0, 1);
    expect_text(merged, 1, 0, "x");
    expect_num(merged, 2, 0, 1);
    expect_text(merged, 3, 0, "a");
}

#[test]
fn left_join_scenario() {
    let mut table = fresh_table(JoinType::Left);
    table.add_build_block(two_col_chunk(vec![1, 2], vec!["a", "b"])).unwrap();
    let probe = two_col_chunk(vec![1, 3], vec!["x", "y"]);
    let out = table.probe_chunk(&probe).unwrap();
    assert_eq!(out.len(), 2);
    let matched = &out[0];
    assert_eq!(matched.num_rows, 1);
    expect_num(matched, 0, 0, 1);
    expect_text(matched, 1, 0, "x");
    expect_text(matched, 3, 0, "a");
    let unmatched = &out[1];
    assert_eq!(unmatched.num_rows, 1);
    expect_num(unmatched, 0, 0, 3);
    expect_text(unmatched, 1, 0, "y");
    expect_null(unmatched, 2, 0);
    expect_null(unmatched, 3, 0);
}

#[test]
fn right_join_scenario() {
    let mut table = fresh_table(JoinType::Right);
    table.add_build_block(two_col_chunk(vec![1, 2], vec!["a", "b"])).unwrap();
    let probe = two_col_chunk(vec![1, 3], vec!["x", "y"]);
    let out = table.probe_chunk(&probe).unwrap();
    assert_eq!(out.len(), 1);
    assert_eq!(out[0].num_rows, 1);
    let compactor = RightJoinCompactor::create(table);
    let final_out = compactor.compact_final(&out).unwrap();
    assert_eq!(final_out.len(), 2);
    let tail = &final_out[1];
    assert_eq!(tail.num_rows, 1);
    expect_null(tail, 0, 0);
    expect_null(tail, 1, 0);
    expect_num(tail, 2, 0, 2);
    expect_text(tail, 3, 0, "b");
}

#[test]
fn right_join_coverage_counts() {
    let mut table = fresh_table(JoinType::Right);
    table.add_build_block(two_col_chunk(vec![1, 2], vec!["a", "b"])).unwrap();
    let probe = two_col_chunk(vec![1, 1], vec!["x", "y"]);
    table.probe_chunk(&probe).unwrap();
    let row_state = table.row_state_for_right_join().unwrap();
    assert_eq!(row_state.len(), 1);
    assert_eq!(row_state[0], vec![2, 0]);
    let unmatched = table.find_unmatched_build_indexes(&row_state).unwrap();
    assert_eq!(unmatched.len(), 1);
    assert_eq!(unmatched[0].chunk_index, 0);
    assert_eq!(unmatched[0].row_index, 1);
}

#[test]
fn index_lookup_reaches_every_build_row() {
    let mut table = fresh_table(JoinType::Inner);
    table.add_build_block(two_col_chunk(vec![7, 7, 9], vec!["a", "b", "c"])).unwrap();
    let ptrs = table.row_space.entry(&vec![Scalar::Num(7)]).unwrap().clone();
    assert_eq!(ptrs.len(), 2);
    let gathered = table.row_space.gather(&ptrs);
    assert_eq!(gathered.num_rows, 2);
    expect_num(&gathered, 0, 0, 7);
    expect_text(&gathered, 1, 0, "a");
    expect_text(&gathered, 1, 1, "b");
    assert!(table.row_space.entry(&vec![Scalar::Num(8)]).is_none());
}

#[test]
fn null_key_rows_never_match() {
    let mut table = fresh_table(JoinType::Inner);
    let build = Chunk {
        columns: vec![
            ChunkEntry {
                id: 0,
                value: Value::Column(Column::Nullable(NullableColumn {
                    column: Box::new(Column::Number(vec![1, 2])),
                    validity: vec![true, false],
                })),
                data_type: DataType::NullableNumber,
            },
            text_col(1, vec!["a", "b"]),
        ],
        num_rows: 2,
    };
    let mut desc = HashJoinDesc {
        join_type: JoinType::Inner,
        build_keys: vec![0],
        probe_keys: vec![0],
        other_predicate: None,
        join_state: JoinState::new(),
    };
    desc.join_state = JoinState::new();
    let mut table2 = JoinHashTable::create(
        desc,
        vec![DataType::NullableNumber, DataType::Text],
        vec![DataType::Number, DataType::Text],
    );
    table2.add_build_block(build).unwrap();
    assert!(table2.row_space.has_null);
    // every row is reachable under its exact key, the null-keyed one included
    let null_keyed = table2.row_space.entry(&vec![Scalar::Null]).unwrap();
    assert_eq!(null_keyed.len(), 1);
    assert_eq!(null_keyed[0].row_index, 1);
    // but no non-null key reaches it
    assert!(table2.row_space.entry(&vec![Scalar::Num(2)]).is_none());
    // and probing matches only the non-null row: key 1 finds exactly one pair
    let out = table2.probe_chunk(&two_col_chunk(vec![1], vec!["x"])).unwrap();
    assert_eq!(out[0].num_rows, 1);
    let _ = table;
}

#[test]
fn duplicate_keys_multiply_inner_rows() {
    let mut table = fresh_table(JoinType::Inner);
    table.add_build_block(two_col_chunk(vec![5, 5], vec!["a", "b"])).unwrap();
    let out = table.probe_chunk(&two_col_chunk(vec![5, 5, 6], vec!["x", "y", "z"])).unwrap();
    // 2 probe rows x 2 build rows with equal keys = 4 pairs
    assert_eq!(out[0].num_rows, 4);
}

#[test]
fn merge_eq_chunk_concatenates_columns() {
    let table = fresh_table(JoinType::Inner);
    let build = two_col_chunk(vec![1], vec!["a"]);
    let probe = two_col_chunk(vec![9], vec!["z"]);
    let merged = table.merge_eq_chunk(&build, &probe).unwrap();
    assert_eq!(merged.columns.len(), 4);
    expect_num(&merged, 0, 0, 9);
    expect_text(&merged, 1, 0, "z");
    expect_num(&merged, 2, 0, 1);
    expect_text(&merged, 3, 0, "a");
}

#[test]
fn set_validity_scalar_entry() {
    let entry = ChunkEntry {
        id: 3,
        value: Value::Scalar(Scalar::Num(42)),
        data_type: DataType::Number,
    };
    let kept = JoinHashTable::set_validity(&entry, &vec![true, true]);
    assert_eq!(kept.id, 3);
    assert_eq!(kept.data_type, DataType::NullableNumber);
    assert!(kept.scalar_at(0).same(&Scalar::Num(42)));
    let dropped = JoinHashTable::set_validity(&entry, &vec![false, false]);
    assert!(dropped.scalar_at(0).is_null());
    assert_eq!(dropped.data_type, DataType::NullableNumber);
}

#[test]
fn set_validity_pads_shorter_column_mask() {
    // the column's own validity is shorter than the supplied mask:
    // missing positions become invalid rather than crashing
    let entry = ChunkEntry {
        id: 0,
        value: Value::Column(Column::Nullable(NullableColumn {
            column: Box::new(Column::Number(vec![10, 20])),
            validity: vec![true, true],
        })),
        data_type: DataType::NullableNumber,
    };
    let mask = vec![true, false, true, true];
    let r = JoinHashTable::set_validity(&entry, &mask);
    match &r.value {
        Value::Column(Column::Nullable(n)) => {
            assert_eq!(n.validity, vec![true, false, false, false]);
        },
        _ => panic!("expected a nullable column"),
    }
    assert!(r.scalar_at(0).same(&Scalar::Num(10)));
    assert!(r.scalar_at(1).is_null());
    assert!(r.scalar_at(2).is_null());
    assert!(r.scalar_at(3).is_null());
}

#[test]
fn set_validity_zero_row_nullable_collapses() {
    let entry = ChunkEntry {
        id: 0,
        value: Value::Column(Column::Nullable(NullableColumn {
            column: Box::new(Column::Number(vec![])),
            validity: vec![],
        })),
        data_type: DataType::NullableNumber,
    };
    let r = JoinHashTable::set_validity(&entry, &vec![true, true, true]);
    match &r.value {
        Value::Column(Column::Null { len }) => assert_eq!(*len, 3),
        _ => panic!("expected an all-null column"),
    }
}

#[test]
fn set_validity_wraps_plain_column() {
    let entry = num_col(1, vec![7, 8]);
    let r = JoinHashTable::set_validity(&entry, &vec![true, false]);
    assert!(r.scalar_at(0).same(&Scalar::Num(7)));
    assert!(r.scalar_at(1).is_null());
    assert_eq!(r.data_type, DataType::Number);
}

#[test]
fn set_validity_composition_is_idempotent() {
    let entry = ChunkEntry {
        id: 0,
        value: Value::Column(Column::Nullable(NullableColumn {
            column: Box::new(Column::Number(vec![1, 2, 3])),
            validity: vec![true, false, true],
        })),
        data_type: DataType::NullableNumber,
    };
    let mask = vec![true, true, false];
    let once = JoinHashTable::set_validity(&entry, &mask);
    let twice = JoinHashTable::set_validity(&once, &mask);
    for i in 0..3 {
        assert!(once.scalar_at(i).same(&twice.scalar_at(i)));
    }
}

#[test]
fn init_markers_flags_null_rows() {
    let cols = vec![Column::Nullable(NullableColumn {
        column: Box::new(Column::Number(vec![1, 2, 3])),
        validity: vec![true, false, true],
    })];
    let markers = JoinHashTable::init_markers(&cols, 3);
    assert_eq!(markers, vec![MarkerKind::False, MarkerKind::Null, MarkerKind::False]);
}

#[test]
fn init_markers_all_null_column_yields_null() {
    // an all-null contributing column makes every row indeterminate
    let cols = vec![Column::Null { len: 2 }];
    let markers = JoinHashTable::init_markers(&cols, 2);
    assert_eq!(markers, vec![MarkerKind::Null, MarkerKind::Null]);
}

#[test]
fn init_markers_null_propagates_past_plain_columns() {
    // a null in any contributing column wins over a fully-valid one
    let cols = vec![
        Column::Nullable(NullableColumn {
            column: Box::new(Column::Number(vec![1, 2])),
            validity: vec![true, false],
        }),
        Column::Number(vec![7, 8]),
    ];
    let markers = JoinHashTable::init_markers(&cols, 2);
    assert_eq!(markers, vec![MarkerKind::False, MarkerKind::Null]);
}

#[test]
fn init_markers_plain_column_all_false() {
    let cols = vec![Column::Number(vec![1, 2])];
    let markers = JoinHashTable::init_markers(&cols, 2);
    assert_eq!(markers, vec![MarkerKind::False, MarkerKind::False]);
    assert!(!markers.contains(&MarkerKind::True));
}

#[test]
fn create_marker_chunk_three_valued() {
    let table = fresh_table(JoinType::Mark);
    let chunk = table
        .create_marker_chunk(false, vec![MarkerKind::True, MarkerKind::False, MarkerKind::Null])
        .unwrap();
    assert_eq!(chunk.num_rows, 3);
    assert!(cell(&chunk, 0, 0).same(&Scalar::Bool(true)));
    assert!(cell(&chunk, 0, 1).same(&Scalar::Bool(false)));
    assert!(cell(&chunk, 0, 2).is_null());
}

#[test]
fn create_marker_chunk_degrades_false_to_null() {
    // with a null on the build side, an unmatched row is indeterminate
    let table = fresh_table(JoinType::Mark);
    let chunk = table
        .create_marker_chunk(true, vec![MarkerKind::True, MarkerKind::False])
        .unwrap();
    assert!(cell(&chunk, 0, 0).same(&Scalar::Bool(true)));
    assert!(cell(&chunk, 0, 1).is_null());
}

#[test]
fn other_filters_column_result() {
    let table = fresh_table(JoinType::Inner);
    let chunk = Chunk {
        columns: vec![ChunkEntry {
            id: 0,
            value: Value::Column(Column::Boolean(vec![true, false, true])),
            data_type: DataType::Boolean,
        }],
        num_rows: 3,
    };
    let (bits, all_true, all_false) =
        table.get_other_filters(&chunk, &Expr::ColumnRef(0)).unwrap();
    assert_eq!(bits, Some(vec![true, false, true]));
    assert!(!all_true);
    assert!(!all_false);
}

#[test]
fn other_filters_null_counts_as_false() {
    let table = fresh_table(JoinType::Inner);
    let chunk = Chunk {
        columns: vec![ChunkEntry {
            id: 0,
            value: Value::Column(Column::Nullable(NullableColumn {
                column: Box::new(Column::Boolean(vec![true, true])),
                validity: vec![true, false],
            })),
            data_type: DataType::NullableBoolean,
        }],
        num_rows: 2,
    };
    let (bits, all_true, all_false) =
        table.get_other_filters(&chunk, &Expr::ColumnRef(0)).unwrap();
    assert_eq!(bits, Some(vec![true, false]));
    assert!(!all_true);
    assert!(!all_false);
}

#[test]
fn other_filters_scalar_result() {
    let table = fresh_table(JoinType::Inner);
    let chunk = two_col_chunk(vec![1], vec!["a"]);
    let (bits, all_true, all_false) =
        table.get_other_filters(&chunk, &Expr::Literal(true)).unwrap();
    assert!(bits.is_none());
    assert!(all_true);
    assert!(!all_false);
}

#[test]
fn other_filters_error_kinds() {
    let table = fresh_table(JoinType::Inner);
    let chunk = two_col_chunk(vec![1], vec!["a"]);
    // missing column: evaluation error
    assert_eq!(table.get_other_filters(&chunk, &Expr::ColumnRef(9)), Err(ErrorCode::Evaluation));
    // non-boolean result: internal shape error
    assert_eq!(table.get_other_filters(&chunk, &Expr::ColumnRef(0)), Err(ErrorCode::Internal));
}

#[test]
fn nullable_filter_column_preserves_nulls() {
    let table = fresh_table(JoinType::Mark);
    let chunk = Chunk {
        columns: vec![ChunkEntry {
            id: 0,
            value: Value::Column(Column::Nullable(NullableColumn {
                column: Box::new(Column::Boolean(vec![true, false])),
                validity: vec![false, true],
            })),
            data_type: DataType::NullableBoolean,
        }],
        num_rows: 2,
    };
    let col = table.get_nullable_filter_column(&chunk, &Expr::ColumnRef(0)).unwrap();
    assert!(matches!(col, Column::Nullable(_)));
    assert!(col.scalar_at(0).is_null());
    assert!(col.scalar_at(1).same(&Scalar::Bool(false)));
}

#[test]
fn rest_chunk_empty_state() {
    let table = fresh_table(JoinType::Left);
    let chunk = table.rest_chunk().unwrap();
    assert_eq!(chunk.num_rows, 0);
    assert_eq!(chunk.columns.len(), 0);
}

#[test]
fn rest_chunk_left_join_null_extends() {
    let mut table = fresh_table(JoinType::Left);
    table.add_build_block(two_col_chunk(vec![1, 2], vec!["a", "b"])).unwrap();
    // defer one probe batch: row 0 matched build row 0, row 1 matched nothing
    table.hash_join_desc.join_state.rest_probe_chunks =
        vec![two_col_chunk(vec![1, 3], vec!["x", "y"])];
    table.hash_join_desc.join_state.rest_build_indexes =
        vec![RowPtr::new(0, 0), RowPtr::new(0, 0)];
    table.hash_join_desc.join_state.validity = vec![true, false];
    let chunk = table.rest_chunk().unwrap();
    assert_eq!(chunk.num_rows, 2);
    assert_eq!(chunk.columns.len(), 4);
    expect_num(&chunk, 0, 0, 1);
    expect_text(&chunk, 1, 0, "x");
    expect_num(&chunk, 2, 0, 1);
    expect_text(&chunk, 3, 0, "a");
    expect_num(&chunk, 0, 1, 3);
    expect_text(&chunk, 1, 1, "y");
    expect_null(&chunk, 2, 1);
    expect_null(&chunk, 3, 1);
}

#[test]
fn add_build_block_error_kinds() {
    let mut table = fresh_table(JoinType::Inner);
    // a batch that does not fit the build schema: internal error
    let bad_schema = Chunk { columns: vec![num_col(0, vec![1])], num_rows: 1 };
    assert_eq!(table.add_build_block(bad_schema), Err(ErrorCode::Internal));
    // a missing key column: evaluation error
    let mut table2 = fresh_table(JoinType::Inner);
    table2.hash_join_desc.build_keys = vec![5];
    assert_eq!(
        table2.add_build_block(two_col_chunk(vec![1], vec!["a"])),
        Err(ErrorCode::Evaluation)
    );
    assert_eq!(table.row_space.chunks.len(), 0);
}

#[test]
fn probe_missing_key_column_is_evaluation_error() {
    let mut table = fresh_table(JoinType::Inner);
    table.hash_join_desc.probe_keys = vec![7];
    table.add_build_block(two_col_chunk(vec![1], vec!["a"])).unwrap();
    let r = table.probe_chunk(&two_col_chunk(vec![1], vec!["x"]));
    assert!(matches!(r, Err(ErrorCode::Evaluation)));
}

#[test]
fn interrupt_stops_probe_and_finalization() {
    let mut table = fresh_table(JoinType::Right);
    table.add_build_block(two_col_chunk(vec![1], vec!["a"])).unwrap();
    table.interrupt();
    let out = table.probe_chunk(&two_col_chunk(vec![1], vec!["x"])).unwrap();
    assert!(out.is_empty());
    let mut compactor = RightJoinCompactor::create(table);
    compactor.interrupt();
    let final_out = compactor.compact_final(&vec![]).unwrap();
    assert!(final_out.is_empty());
}

#[test]
fn full_join_ignores_false_marked_rows() {
    let mut table = fresh_table(JoinType::Full);
    table.add_build_block(two_col_chunk(vec![1], vec!["a"])).unwrap();
    let mut ptr = RowPtr::new(0, 0);
    ptr.marker = Some(MarkerKind::False);
    table.hash_join_desc.join_state.build_indexes = vec![ptr];
    let row_state = table.row_state_for_right_join().unwrap();
    // the only match is marked False, so the row still counts as uncovered
    assert_eq!(row_state[0], vec![0]);
    let unmatched = table.find_unmatched_build_indexes(&row_state).unwrap();
    assert_eq!(unmatched.len(), 1);
}

#[test]
fn inner_join_with_residual_predicate() {
    // equality pass first, then the residual predicate over the merged
    // batch: only pairs whose predicate cell is a true boolean survive
    let desc = HashJoinDesc {
        join_type: JoinType::Inner,
        build_keys: vec![0],
        probe_keys: vec![0],
        other_predicate: None,
        join_state: JoinState::new(),
    };
    let mut table = JoinHashTable::create(
        desc,
        vec![DataType::Number, DataType::Boolean],
        vec![DataType::Number, DataType::Text],
    );
    let build = Chunk {
        columns: vec![
            num_col(0, vec![1, 1]),
            ChunkEntry {
                id: 1,
                value: Value::Column(Column::Boolean(vec![true, false])),
                data_type: DataType::Boolean,
            },
        ],
        num_rows: 2,
    };
    table.add_build_block(build).unwrap();
    let out = table.probe_chunk(&two_col_chunk(vec![1], vec!["x"])).unwrap();
    let merged = &out[0];
    assert_eq!(merged.num_rows, 2);
    let (bits, _, _) = table
        .get_other_filters(merged, &Expr::ColumnRef(3))
        .unwrap();
    let bits = bits.unwrap();
    assert_eq!(bits, vec![true, false]);
    let merged_schema = vec![
        DataType::Number,
        DataType::Text,
        DataType::Number,
        DataType::Boolean,
    ];
    let filtered = hash_join::common::filter_chunk(merged, &bits, &merged_schema);
    assert_eq!(filtered.num_rows, 1);
    assert!(filtered.columns[0].scalar_at(0).same(&Scalar::Num(1)));
    assert!(filtered.columns[3].scalar_at(0).same(&Scalar::Bool(true)));
}

#[test]
fn full_join_finalization_null_extends_both_sides() {
    let mut table = fresh_table(JoinType::Full);
    table.add_build_block(two_col_chunk(vec![1, 2], vec!["a", "b"])).unwrap();
    let out = table.probe_chunk(&two_col_chunk(vec![1], vec!["x"])).unwrap();
    let compactor = RightJoinCompactor::create(table);
    let final_out = compactor.compact_final(&out).unwrap();
    let tail = &final_out[final_out.len() - 1];
    assert_eq!(tail.num_rows, 1);
    // probe side null, build side kept (and nullable-wrapped for a full join)
    expect_null(tail, 0, 0);
    expect_null(tail, 1, 0);
    expect_num(tail, 2, 0, 2);
    expect_text(tail, 3, 0, "b");
    assert!(matches!(
        &tail.columns[2].value,
        Value::Column(Column::Nullable(_))
    ));
}
