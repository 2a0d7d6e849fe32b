use pg_replicate::batch::{BatchConfig, Batcher, Step};
use pg_replicate::changes::change_row;
use pg_replicate::engine::{
    next_phase, PhaseEvent, SourcePhase, StateError, merge_unchanged_toast, status_update, stream_start_lsn, tables_to_copy, SchemaCache,
    StatusUpdate, ToastError, TupleValue,
};
use pg_replicate::model::{
    CdcEvent, Cell, ColumnSchema, PipelineAction, RowError, TableName, TableRow, TableSchema, INT4_OID, TEXT_OID,
};
use pg_replicate::sink_types::{
    column_type, postgres_type_to_bigquery_type, upstream_type_of, BigQueryType, ColumnType,
    TableDescriptor,
};

fn users(id: u32, extra: bool) -> TableSchema {
    let mut cols = vec![
        ColumnSchema { name: "id".to_string(), typ: INT4_OID, modifier: -1, nullable: false, identity: true },
        ColumnSchema { name: "name".to_string(), typ: TEXT_OID, modifier: -1, nullable: true, identity: false },
    ];
    if extra {
        cols.push(ColumnSchema {
            name: "email".to_string(),
            typ: TEXT_OID,
            modifier: -1,
            nullable: true,
            identity: false,
        });
    }
    TableSchema {
        table_id: id,
        table_name: TableName { schema: "public".to_string(), name: "users".to_string() },
        column_schemas: cols,
    }
}

fn begin(lsn: u64) -> CdcEvent {
    CdcEvent::Begin { final_lsn: lsn, timestamp: 0, xid: 1 }
}

fn commit(end: u64) -> CdcEvent {
    CdcEvent::Commit { flags: 0, commit_lsn: end - 1, end_lsn: end, timestamp: 0 }
}

fn insert(table_id: u32, id: i32) -> CdcEvent {
    CdcEvent::Insert {
        table_id,
        row: TableRow { values: vec![Cell::I32(id), Cell::String("a".to_string())] },
    }
}

fn is_wait(s: &Step) -> bool {
    matches!(s, Step::Wait)
}

#[test]
fn single_insert_flushes_one_batch_and_acknowledges() {
    let mut b = Batcher::new(BatchConfig { max_size: 1000, max_fill_ms: 5000 }, 0);
    assert!(is_wait(&b.push(begin(100), 0)));
    assert!(is_wait(&b.push(CdcEvent::Relation(users(1, false)), 1)));
    assert!(is_wait(&b.push(insert(1, 1), 2)));
    assert!(is_wait(&b.push(commit(104), 3)));
    assert!(b.tick(4999).is_none());
    let batch = b.tick(5000).expect("age limit reached");
    assert_eq!(batch.len(), 4);
    assert!(matches!(batch[3], CdcEvent::Commit { end_lsn: 104, .. }));
    assert_eq!(b.acknowledge(Some(104)), Some(104));
    assert_eq!(b.durable_lsn(), 104);
    assert_eq!(status_update(b.durable_lsn()), StatusUpdate { write_lsn: 104, flush_lsn: 104, apply_lsn: 104 });
}

#[test]
fn size_limit_waits_for_commit() {
    let mut b = Batcher::new(BatchConfig { max_size: 1, max_fill_ms: 0 }, 0);
    assert!(is_wait(&b.push(begin(10), 0)));
    assert!(is_wait(&b.push(insert(1, 1), 0)));
    assert!(is_wait(&b.push(insert(1, 2), 0)));
    match b.push(commit(20), 0) {
        Step::Flush(batch) => assert_eq!(batch.len(), 4),
        _ => panic!("commit should flush"),
    }
    assert_eq!(b.len(), 0);
    match b.push(CdcEvent::Relation(users(1, false)), 0) {
        Step::Flush(batch) => assert_eq!(batch.len(), 1),
        _ => panic!("event outside a transaction should flush"),
    }
}

#[test]
fn zero_max_fill_never_flushes_by_age() {
    let mut b = Batcher::new(BatchConfig { max_size: 10, max_fill_ms: 0 }, 0);
    b.push(begin(1), 0);
    b.push(commit(2), 0);
    assert!(b.tick(u64::MAX).is_none());
    assert_eq!(b.len(), 2);
    assert_eq!(b.drain().map(|v| v.len()), Some(2));
}

#[test]
fn open_transaction_is_not_drained() {
    let mut b = Batcher::new(BatchConfig { max_size: 10, max_fill_ms: 0 }, 0);
    b.push(begin(1), 0);
    assert!(b.drain().is_none());
    assert_eq!(b.len(), 1);
}

#[test]
fn keepalive_replies_with_durable_position() {
    let mut b = Batcher::new(BatchConfig { max_size: 10, max_fill_ms: 0 }, 480);
    b.push(begin(490), 0);
    match b.push(CdcEvent::KeepAliveRequested { wal_end: 500, timestamp: 0, reply_requested: true }, 0) {
        Step::Reply(l) => {
            assert_eq!(l, 480);
            assert_eq!(status_update(l), StatusUpdate { write_lsn: 480, flush_lsn: 480, apply_lsn: 480 });
        }
        _ => panic!("keepalive should be answered"),
    }
    assert!(is_wait(&b.push(
        CdcEvent::KeepAliveRequested { wal_end: 500, timestamp: 0, reply_requested: false },
        0
    )));
    assert_eq!(b.len(), 1);
}

#[test]
fn durable_position_never_moves_back() {
    let mut b = Batcher::new(BatchConfig { max_size: 1, max_fill_ms: 0 }, 0);
    assert_eq!(b.acknowledge(Some(200)), Some(200));
    assert_eq!(b.acknowledge(Some(150)), Some(200));
    assert_eq!(b.acknowledge(None), None);
    assert_eq!(b.durable_lsn(), 200);
}

#[test]
fn truncate_flushes_at_end_of_its_transaction() {
    let mut b = Batcher::new(BatchConfig { max_size: 1000, max_fill_ms: 0 }, 0);
    b.push(begin(30), 0);
    assert!(is_wait(&b.push(CdcEvent::Truncate { table_ids: vec![5], options: 0 }, 0)));
    match b.push(commit(40), 0) {
        Step::Flush(batch) => {
            assert_eq!(batch.len(), 3);
            assert!(matches!(&batch[1], CdcEvent::Truncate { table_ids, .. } if table_ids == &vec![5]));
        }
        _ => panic!("truncate should force a flush"),
    }
    assert_eq!(b.acknowledge(Some(40)), Some(40));
    b.push(begin(41), 0);
    b.push(insert(5, 1), 0);
    assert!(is_wait(&b.push(commit(50), 0)));
    assert_eq!(b.len(), 3);
}

#[test]
fn update_of_unchanged_toast_without_old_row_fails() {
    let new_values = vec![TupleValue::Value(Cell::I32(1)), TupleValue::UnchangedToast];
    assert_eq!(merge_unchanged_toast(new_values, None, false, &[]).unwrap_err(), ToastError::MissingOldValue(1));
}

#[test]
fn unchanged_toast_is_filled_from_old_row() {
    let new_values = vec![TupleValue::Value(Cell::I32(1)), TupleValue::UnchangedToast];
    let old = TableRow { values: vec![Cell::I32(1), Cell::String("body".to_string())] };
    let row = merge_unchanged_toast(new_values, Some(old), false, &[]).unwrap();
    assert_eq!(row.values, vec![Cell::I32(1), Cell::String("body".to_string())]);
    let short = TableRow { values: vec![Cell::I32(1)] };
    let again = vec![TupleValue::UnchangedToast, TupleValue::UnchangedToast];
    assert_eq!(merge_unchanged_toast(again, Some(short), false, &[]).unwrap_err(), ToastError::MissingOldValue(1));
}

#[test]
fn restart_skips_copied_tables() {
    assert_eq!(tables_to_copy(&vec![7, 8], &vec![7]), vec![8]);
    assert_eq!(stream_start_lsn(200, 150), 200);
    assert_eq!(stream_start_lsn(200, 250), 250);
    let b = Batcher::new(BatchConfig { max_size: 5, max_fill_ms: 0 }, 200);
    assert_eq!(b.durable_lsn(), 200);
}

#[test]
fn empty_publication_copies_nothing() {
    assert!(tables_to_copy(&vec![], &vec![]).is_empty());
    let mut b = Batcher::new(BatchConfig { max_size: 5, max_fill_ms: 1 }, 0);
    assert!(b.tick(100).is_none());
    assert!(b.drain().is_none());
}

#[test]
fn schema_change_between_transactions() {
    let mut cache = SchemaCache::new();
    assert!(cache.schema_for(1).is_none());
    cache.apply_relation(users(1, false));
    cache.apply_relation(users(2, false));
    assert_eq!(cache.schema_for(1).unwrap().column_schemas.len(), 2);
    let v1_row = TableRow { values: vec![Cell::I32(1), Cell::Null] };
    assert!(v1_row.validate(cache.schema_for(1).unwrap()).is_ok());
    cache.apply_relation(users(1, true));
    assert_eq!(cache.schema_for(1).unwrap().column_schemas.len(), 3);
    assert_eq!(cache.schema_for(2).unwrap().column_schemas.len(), 2);
    assert_eq!(v1_row.validate(cache.schema_for(1).unwrap()), Err(RowError::LengthMismatch));
    let v2_row = TableRow { values: vec![Cell::I32(1), Cell::Null, Cell::String("e".to_string())] };
    assert!(v2_row.validate(cache.schema_for(1).unwrap()).is_ok());
}

#[test]
fn validate_reports_first_mismatch() {
    let schema = users(1, false);
    let bad = TableRow { values: vec![Cell::I64(1), Cell::Bool(true)] };
    assert_eq!(bad.validate(&schema), Err(RowError::TypeMismatch(0)));
    let null_id = TableRow { values: vec![Cell::Null, Cell::Null] };
    assert_eq!(null_id.validate(&schema), Err(RowError::TypeMismatch(0)));
}

#[test]
fn sink_type_mapping_round_trips() {
    for oid in [16u32, 17, 18, 19, 20, 21, 23, 25, 700, 701, 1042, 1043, 1082, 1083, 1114, 1184, 1700, 2950, 9999] {
        let t = postgres_type_to_bigquery_type(oid);
        assert_eq!(postgres_type_to_bigquery_type(upstream_type_of(t)), t);
    }
    assert_eq!(postgres_type_to_bigquery_type(2950), BigQueryType::String);
    assert_eq!(postgres_type_to_bigquery_type(9999).name(), "bytes");
    assert_eq!(column_type(700), ColumnType::Float32);
    assert_eq!(column_type(1700), ColumnType::String);
}

#[test]
fn descriptor_numbers_fields_and_adds_change_type() {
    let d = TableDescriptor::from_schema(&users(1, false));
    assert_eq!(d.field_descriptors.len(), 3);
    assert_eq!(d.field_descriptors[0].number, 1);
    assert_eq!(d.field_descriptors[0].name, "id");
    assert_eq!(d.field_descriptors[0].typ, ColumnType::Int64);
    assert_eq!(d.field_descriptors[1].typ, ColumnType::String);
    assert_eq!(d.field_descriptors[2].number, 3);
    assert_eq!(d.field_descriptors[2].name, "_CHANGE_TYPE");
}

#[test]
fn phases_follow_the_action() {
    let both = PipelineAction::Both;
    assert_eq!(next_phase(both, SourcePhase::Idle, PhaseEvent::Start), Ok(SourcePhase::Snapshotting));
    assert_eq!(
        next_phase(both, SourcePhase::Snapshotting, PhaseEvent::CopiesDrained),
        Ok(SourcePhase::Snapshotted)
    );
    assert_eq!(
        next_phase(both, SourcePhase::Snapshotted, PhaseEvent::CopyCommitted),
        Ok(SourcePhase::Streaming)
    );
    assert_eq!(next_phase(both, SourcePhase::Streaming, PhaseEvent::Stop), Ok(SourcePhase::Closed));
    assert_eq!(
        next_phase(PipelineAction::CdcOnly, SourcePhase::Idle, PhaseEvent::Start),
        Ok(SourcePhase::Streaming)
    );
    assert_eq!(
        next_phase(PipelineAction::TableCopiesOnly, SourcePhase::Snapshotted, PhaseEvent::CopyCommitted),
        Ok(SourcePhase::Closed)
    );
    assert_eq!(
        next_phase(both, SourcePhase::Snapshotting, PhaseEvent::Stop),
        Err(StateError { phase: SourcePhase::Snapshotting, event: PhaseEvent::Stop })
    );
}

#[test]
fn change_rows_carry_change_type() {
    let schema = users(3, false);
    let (t, row) = change_row(insert(3, 9), &schema.column_schemas).unwrap();
    assert_eq!(t, 3);
    assert_eq!(
        row.values,
        vec![Cell::I32(9), Cell::String("a".to_string()), Cell::String("UPSERT".to_string())]
    );
    let update = CdcEvent::Update {
        table_id: 3,
        old_row: None,
        new_row: TableRow { values: vec![Cell::I32(9), Cell::String("b".to_string())] },
    };
    let (_, row) = change_row(update, &schema.column_schemas).unwrap();
    assert_eq!(row.values[2], Cell::String("UPSERT".to_string()));
    let delete = CdcEvent::Delete {
        table_id: 3,
        old_row: TableRow { values: vec![Cell::I32(9), Cell::String("b".to_string())] },
    };
    let (_, row) = change_row(delete, &schema.column_schemas).unwrap();
    assert_eq!(row.values, vec![Cell::I32(9), Cell::Null, Cell::String("DELETE".to_string())]);
    assert!(change_row(begin(1), &schema.column_schemas).is_none());
}

#[test]
fn key_only_old_row_does_not_fill_other_columns() {
    let schema = users(1, false);
    let new_values = vec![TupleValue::Value(Cell::I32(1)), TupleValue::UnchangedToast];
    let key_row = TableRow { values: vec![Cell::I32(1), Cell::Null] };
    assert_eq!(
        merge_unchanged_toast(new_values, Some(key_row), true, &schema.column_schemas).unwrap_err(),
        ToastError::MissingOldValue(1)
    );
    let new_id = vec![TupleValue::UnchangedToast, TupleValue::Value(Cell::Null)];
    let key_row = TableRow { values: vec![Cell::I32(4), Cell::Null] };
    let row = merge_unchanged_toast(new_id, Some(key_row), true, &schema.column_schemas).unwrap();
    assert_eq!(row.values, vec![Cell::I32(4), Cell::Null]);
}
