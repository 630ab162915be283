use streamdb::stream_chunk::{
    Bitmap, DataChunk, DataType, Op, ScalarImpl, StreamChunk, StreamChunkTestExt, Vis,
};

fn int_col(values: &[i64]) -> Vec<Option<ScalarImpl>> {
    values.iter().map(|v| Some(ScalarImpl::Int64(*v))).collect()
}

#[test]
fn chunk_dimensions() {
    let ops = vec![Op::Insert, Op::Delete, Op::UpdateDelete, Op::UpdateInsert];
    let chunk = StreamChunk::new(ops, vec![int_col(&[1, 2, 3, 4])], None);
    assert_eq!(chunk.capacity(), 4);
    assert_eq!(chunk.cardinality(), 4);
    assert_eq!(chunk.ops().len(), 4);
    assert!(chunk.visibility().is_none());
    assert_eq!(chunk.columns().len(), 1);
}

#[test]
fn cardinality_counts_visible_rows() {
    let ops = vec![Op::Insert, Op::Insert, Op::Insert];
    let vis = Bitmap { bits: vec![true, false, true] };
    let chunk = StreamChunk::new(ops, vec![int_col(&[1, 2, 3])], Some(vis));
    assert_eq!(chunk.capacity(), 3);
    assert_eq!(chunk.cardinality(), 2);
    assert!(chunk.visibility().is_some());
}

#[test]
fn compact_drops_hidden_rows() {
    let ops = vec![Op::Insert, Op::Delete, Op::Insert];
    let vis = Bitmap { bits: vec![true, false, true] };
    let chunk = StreamChunk::new(ops, vec![int_col(&[10, 20, 30])], Some(vis));
    let compacted = chunk.compact();
    assert_eq!(compacted.capacity(), 2);
    assert_eq!(compacted.cardinality(), 2);
    assert_eq!(compacted.ops(), &vec![Op::Insert, Op::Insert]);
    assert!(compacted.visibility().is_none());
    let col = compacted.column_at(0);
    match (&col[0], &col[1]) {
        (Some(ScalarImpl::Int64(a)), Some(ScalarImpl::Int64(b))) => {
            assert_eq!(*a, 10);
            assert_eq!(*b, 30);
        },
        _ => panic!("unexpected cells"),
    }
}

#[test]
fn from_rows_transposes() {
    let rows = vec![
        (Op::Insert, int_col(&[1, 2])),
        (Op::Delete, int_col(&[3, 4])),
    ];
    let chunk = StreamChunk::from_rows(&rows, &vec![DataType::Int64, DataType::Int64]);
    assert_eq!(chunk.capacity(), 2);
    assert_eq!(chunk.columns().len(), 2);
    match &chunk.column_at(1)[0] {
        Some(ScalarImpl::Int64(v)) => assert_eq!(*v, 2),
        _ => panic!("unexpected cell"),
    }
    match &chunk.column_at(0)[1] {
        Some(ScalarImpl::Int64(v)) => assert_eq!(*v, 3),
        _ => panic!("unexpected cell"),
    }
}

#[test]
fn reorder_columns_applies_mapping() {
    let ops = vec![Op::Insert];
    let chunk = StreamChunk::new(ops, vec![int_col(&[1]), int_col(&[2]), int_col(&[3])], None);
    let reordered = chunk.reorder_columns(&vec![2, 0]);
    assert_eq!(reordered.columns().len(), 2);
    match &reordered.column_at(0)[0] {
        Some(ScalarImpl::Int64(v)) => assert_eq!(*v, 3),
        _ => panic!("unexpected cell"),
    }
    match &reordered.column_at(1)[0] {
        Some(ScalarImpl::Int64(v)) => assert_eq!(*v, 1),
        _ => panic!("unexpected cell"),
    }
}

#[test]
fn parts_round_trip() {
    let ops = vec![Op::Insert, Op::Insert];
    let chunk = StreamChunk::new(ops.clone(), vec![int_col(&[5, 6])], None);
    let (data, got_ops) = chunk.into_parts();
    assert_eq!(got_ops, ops);
    let rebuilt = StreamChunk::from_parts(got_ops, data);
    assert_eq!(rebuilt.capacity(), 2);
    let (ops2, cols, vis) = rebuilt.into_inner();
    assert_eq!(ops2.len(), 2);
    assert_eq!(cols.len(), 1);
    assert!(vis.is_none());
}

#[test]
fn concat_joins_chunks() {
    let a = StreamChunk::new(vec![Op::Insert], vec![int_col(&[1])], None);
    let b = StreamChunk::new(vec![Op::Delete, Op::Insert], vec![int_col(&[2, 3])], None);
    let joined = StreamChunk::concat(vec![a, b]);
    assert!(joined.valid());
    assert_eq!(joined.capacity(), 3);
    assert_eq!(joined.ops(), &vec![Op::Insert, Op::Delete, Op::Insert]);
}

#[test]
fn valid_checks_layout() {
    let good = StreamChunk::new(vec![Op::Insert], vec![int_col(&[1])], None);
    assert!(good.valid());
    let bad = StreamChunk::new_from_data_chunk(
        vec![Op::Insert, Op::Delete],
        DataChunk::new(vec![int_col(&[1])], Vis::Compact(1)),
    );
    assert!(!bad.valid());
}

#[test]
fn data_chunk_accessors() {
    let data = DataChunk::new(vec![int_col(&[1, 2])], Vis::Compact(2));
    assert_eq!(data.capacity(), 2);
    assert_eq!(data.cardinality(), 2);
    assert_eq!(data.columns().len(), 1);
    let chunk = StreamChunk::new_from_data_chunk(vec![Op::Insert, Op::Insert], data);
    assert_eq!(chunk.data_chunk().capacity(), 2);
}
