use pg_replicate::batch::{BatchConfig, Batcher, Step};
use pg_replicate::model::{CdcEvent, Cell, ColumnSchema, Date, DateTime, TableName, TableSchema, Time};
use pg_replicate::rows::{decode_row_message, RowMessageError};
use pg_replicate::relation::{decode_origin_message, decode_relation, decode_type_message, RelationError};
use pg_replicate::values::{decode_binary_cell, ValueError};
use pg_replicate::tuples::{decode_tuple, TupleError};
use pg_replicate::engine::{SchemaCache, TupleValue};
use pg_replicate::wire::{
    decode_logical_message, decode_replication_message, keepalive_event, DecodeError,
    ReplicationMessage,
};

fn keepalive(wal_end: u64, ts: i64, reply: u8) -> Vec<u8> {
    let mut b = vec![b'k'];
    b.extend_from_slice(&wal_end.to_be_bytes());
    b.extend_from_slice(&ts.to_be_bytes());
    b.push(reply);
    b
}

#[test]
fn keepalive_is_answered_with_durable_position() {
    let msg = decode_replication_message(&keepalive(500, -3, 1)).unwrap();
    match &msg {
        ReplicationMessage::PrimaryKeepalive { wal_end, timestamp, reply_requested } => {
            assert_eq!(*wal_end, 500);
            assert_eq!(*timestamp, -3);
            assert!(*reply_requested);
        }
        _ => panic!("expected a keepalive"),
    }
    let event = keepalive_event(&msg).unwrap();
    let mut b = Batcher::new(BatchConfig { max_size: 100, max_fill_ms: 0 }, 480);
    match b.push(event, 0) {
        Step::Reply(l) => assert_eq!(l, 480),
        _ => panic!("keepalive should be answered"),
    }
}

#[test]
fn xlog_data_carries_its_payload() {
    let mut b = vec![b'w'];
    b.extend_from_slice(&100u64.to_be_bytes());
    b.extend_from_slice(&104u64.to_be_bytes());
    b.extend_from_slice(&7i64.to_be_bytes());
    b.extend_from_slice(b"Bxyz");
    match decode_replication_message(&b).unwrap() {
        ReplicationMessage::XLogData { wal_start, wal_end, send_time, data } => {
            assert_eq!((wal_start, wal_end, send_time), (100, 104, 7));
            assert_eq!(data, b"Bxyz".to_vec());
        }
        _ => panic!("expected log data"),
    }
    assert!(keepalive_event(&decode_replication_message(&b).unwrap()).is_none());
}

#[test]
fn framing_errors() {
    assert_eq!(decode_replication_message(&[]).unwrap_err(), DecodeError::Truncated);
    assert_eq!(decode_replication_message(&[b'k', 0, 0]).unwrap_err(), DecodeError::Truncated);
    assert_eq!(
        decode_replication_message(&[b'z', 1]).unwrap_err(),
        DecodeError::UnsupportedMessage(b'z')
    );
}

#[test]
fn begin_commit_and_truncate() {
    let mut begin = vec![b'B'];
    begin.extend_from_slice(&100u64.to_be_bytes());
    begin.extend_from_slice(&1i64.to_be_bytes());
    begin.extend_from_slice(&42u32.to_be_bytes());
    assert!(matches!(
        decode_logical_message(&begin).unwrap(),
        CdcEvent::Begin { final_lsn: 100, timestamp: 1, xid: 42 }
    ));
    let mut commit = vec![b'C', 0];
    commit.extend_from_slice(&103u64.to_be_bytes());
    commit.extend_from_slice(&104u64.to_be_bytes());
    commit.extend_from_slice(&(-1i64).to_be_bytes());
    assert!(matches!(
        decode_logical_message(&commit).unwrap(),
        CdcEvent::Commit { flags: 0, commit_lsn: 103, end_lsn: 104, timestamp: -1 }
    ));
    let mut truncate = vec![b'T'];
    truncate.extend_from_slice(&2u32.to_be_bytes());
    truncate.push(1);
    truncate.extend_from_slice(&5u32.to_be_bytes());
    truncate.extend_from_slice(&70000u32.to_be_bytes());
    match decode_logical_message(&truncate).unwrap() {
        CdcEvent::Truncate { table_ids, options } => {
            assert_eq!(table_ids, vec![5, 70000]);
            assert_eq!(options, 1);
        }
        _ => panic!("expected a truncate"),
    }
    truncate.pop();
    assert_eq!(decode_logical_message(&truncate).unwrap_err(), DecodeError::Truncated);
    assert_eq!(decode_logical_message(&[b'B', 1]).unwrap_err(), DecodeError::Truncated);
    assert_eq!(decode_logical_message(&[b'Q']).unwrap_err(), DecodeError::UnsupportedMessage(b'Q'));
}

#[test]
fn binary_values_decode_by_type() {
    assert_eq!(decode_binary_cell(16, vec![1]), Ok(Cell::Bool(true)));
    assert_eq!(decode_binary_cell(21, vec![0xff, 0xfe]), Ok(Cell::I16(-2)));
    assert_eq!(decode_binary_cell(23, 70000i32.to_be_bytes().to_vec()), Ok(Cell::I32(70000)));
    assert_eq!(decode_binary_cell(20, (-5i64).to_be_bytes().to_vec()), Ok(Cell::I64(-5)));
    assert_eq!(
        decode_binary_cell(700, 1.5f32.to_be_bytes().to_vec()),
        Ok(Cell::F32(1.5f32.to_bits()))
    );
    assert_eq!(
        decode_binary_cell(701, 2.25f64.to_be_bytes().to_vec()),
        Ok(Cell::F64(2.25f64.to_bits()))
    );
    let micros: i64 = ((13 * 60 + 5) * 60 + 9) * 1_000_000 + 250_000;
    assert_eq!(
        decode_binary_cell(1083, micros.to_be_bytes().to_vec()),
        Ok(Cell::Time(Time { hour: 13, minute: 5, second: 9, micro: 250_000 }))
    );
    assert_eq!(decode_binary_cell(25, "héllo".as_bytes().to_vec()), Ok(Cell::String("héllo".to_string())));
    assert_eq!(decode_binary_cell(2950, (0u8..16).collect()), Ok(Cell::Uuid(core::array::from_fn(|i| i as u8))));
    assert_eq!(decode_binary_cell(17, vec![9, 8]), Ok(Cell::Bytes(vec![9, 8])));
    assert_eq!(decode_binary_cell(4242, vec![1]), Ok(Cell::Bytes(vec![1])));
}

#[test]
fn binary_value_errors() {
    assert_eq!(decode_binary_cell(23, vec![0, 1]), Err(ValueError::BadLength));
    assert_eq!(decode_binary_cell(25, vec![0xff, 0xfe]), Err(ValueError::BadUtf8));
    assert_eq!(
        decode_binary_cell(1083, 86_400_000_000i64.to_be_bytes().to_vec()),
        Err(ValueError::OutOfRange)
    );
    assert_eq!(decode_binary_cell(1700, vec![0, 0, 0, 0]), Err(ValueError::BadNumeric));
    assert_eq!(decode_binary_cell(1082, vec![0, 0]), Err(ValueError::BadLength));
    assert_eq!(
        decode_binary_cell(1114, i64::MAX.to_be_bytes().to_vec()),
        Err(ValueError::OutOfRange)
    );
    assert_eq!(
        decode_binary_cell(1082, i32::MIN.to_be_bytes().to_vec()),
        Err(ValueError::OutOfRange)
    );
}

fn binary_col(bytes: &[u8]) -> Vec<u8> {
    let mut v = vec![b'b'];
    v.extend_from_slice(&(bytes.len() as u32).to_be_bytes());
    v.extend_from_slice(bytes);
    v
}

#[test]
fn tuples_decode_by_column_type() {
    let mut b = vec![0xAA];
    b.extend_from_slice(&3u16.to_be_bytes());
    b.extend(binary_col(&1i32.to_be_bytes()));
    b.push(b'n');
    b.push(b'u');
    b.push(0xBB);
    let (vals, end) = decode_tuple(&b, 1, &[23, 25, 25]).unwrap();
    assert_eq!(end, b.len() - 1);
    assert_eq!(vals.len(), 3);
    assert!(matches!(vals[0], TupleValue::Value(Cell::I32(1))));
    assert!(matches!(vals[1], TupleValue::Value(Cell::Null)));
    assert!(matches!(vals[2], TupleValue::UnchangedToast));
}

#[test]
fn tuple_errors_name_the_column() {
    let mut b = 2u16.to_be_bytes().to_vec();
    b.push(b'n');
    b.extend(vec![b't', 0, 0, 0, 1, b'x']);
    assert_eq!(decode_tuple(&b, 0, &[25, 25]).unwrap_err(), TupleError::UnsupportedFormat(1));
    assert_eq!(decode_tuple(&b, 0, &[25]).unwrap_err(), TupleError::ColumnCountMismatch);
    let mut bad = 1u16.to_be_bytes().to_vec();
    bad.extend(binary_col(&[0, 1]));
    assert_eq!(
        decode_tuple(&bad, 0, &[23]).unwrap_err(),
        TupleError::InvalidValue(0, ValueError::BadLength)
    );
    let mut short = 1u16.to_be_bytes().to_vec();
    short.extend(vec![b'b', 0, 0, 0, 9, 1]);
    assert_eq!(decode_tuple(&short, 0, &[17]).unwrap_err(), TupleError::Malformed);
    assert_eq!(decode_tuple(&[0], 0, &[]).unwrap_err(), TupleError::Malformed);
    assert_eq!(decode_tuple(&[0, 1, b'x'], 0, &[17]).unwrap_err(), TupleError::Malformed);
}

fn users_cache() -> SchemaCache {
    let mut cache = SchemaCache::new();
    cache.apply_relation(TableSchema {
        table_id: 7,
        table_name: TableName { schema: "public".to_string(), name: "users".to_string() },
        column_schemas: vec![
            ColumnSchema { name: "id".to_string(), typ: 23, modifier: -1, nullable: false, identity: true },
            ColumnSchema { name: "body".to_string(), typ: 25, modifier: -1, nullable: true, identity: false },
        ],
    });
    cache
}

fn row_message(tag: u8, table: u32) -> Vec<u8> {
    let mut b = vec![tag];
    b.extend_from_slice(&table.to_be_bytes());
    b
}

fn tuple(cols: &[Vec<u8>]) -> Vec<u8> {
    let mut b = (cols.len() as u16).to_be_bytes().to_vec();
    for c in cols {
        b.extend_from_slice(c);
    }
    b
}

#[test]
fn insert_message_decodes_under_latest_schema() {
    let cache = users_cache();
    let mut b = row_message(b'I', 7);
    b.push(b'N');
    b.extend(tuple(&[binary_col(&1i32.to_be_bytes()), binary_col(b"a")]));
    match decode_row_message(&b, &cache).unwrap() {
        CdcEvent::Insert { table_id, row } => {
            assert_eq!(table_id, 7);
            assert_eq!(row.values, vec![Cell::I32(1), Cell::String("a".to_string())]);
        }
        _ => panic!("expected an insert"),
    }
    assert_eq!(
        decode_row_message(&row_message(b'I', 8), &cache).unwrap_err(),
        RowMessageError::UnknownTable(8)
    );
    assert_eq!(decode_row_message(&[b'X'], &cache).unwrap_err(), RowMessageError::UnsupportedMessage(b'X'));
}

#[test]
fn update_with_unchanged_toast_needs_old_tuple() {
    let cache = users_cache();
    let mut b = row_message(b'U', 7);
    b.push(b'N');
    b.extend(tuple(&[binary_col(&1i32.to_be_bytes()), vec![b'u']]));
    assert_eq!(decode_row_message(&b, &cache).unwrap_err(), RowMessageError::MissingOldValue(1));

    let mut key_only = row_message(b'U', 7);
    key_only.push(b'K');
    key_only.extend(tuple(&[binary_col(&1i32.to_be_bytes()), vec![b'n']]));
    key_only.push(b'N');
    key_only.extend(tuple(&[binary_col(&1i32.to_be_bytes()), vec![b'u']]));
    assert_eq!(decode_row_message(&key_only, &cache).unwrap_err(), RowMessageError::MissingOldValue(1));

    let mut full = row_message(b'U', 7);
    full.push(b'O');
    full.extend(tuple(&[binary_col(&1i32.to_be_bytes()), binary_col(b"body")]));
    full.push(b'N');
    full.extend(tuple(&[binary_col(&2i32.to_be_bytes()), vec![b'u']]));
    match decode_row_message(&full, &cache).unwrap() {
        CdcEvent::Update { table_id, old_row, new_row } => {
            assert_eq!(table_id, 7);
            assert_eq!(old_row.unwrap().values, vec![Cell::I32(1), Cell::String("body".to_string())]);
            assert_eq!(new_row.values, vec![Cell::I32(2), Cell::String("body".to_string())]);
        }
        _ => panic!("expected an update"),
    }
}

#[test]
fn delete_message_and_toast_in_insert() {
    let cache = users_cache();
    let mut b = row_message(b'D', 7);
    b.push(b'K');
    b.extend(tuple(&[binary_col(&1i32.to_be_bytes()), vec![b'n']]));
    match decode_row_message(&b, &cache).unwrap() {
        CdcEvent::Delete { table_id, old_row } => {
            assert_eq!(table_id, 7);
            assert_eq!(old_row.values, vec![Cell::I32(1), Cell::Null]);
        }
        _ => panic!("expected a delete"),
    }
    let mut bad = row_message(b'I', 7);
    bad.push(b'N');
    bad.extend(tuple(&[binary_col(&1i32.to_be_bytes()), vec![b'u']]));
    assert_eq!(decode_row_message(&bad, &cache).unwrap_err(), RowMessageError::MissingOldValue(1));
    let mut text = row_message(b'I', 7);
    text.push(b'N');
    text.extend(tuple(&[vec![b't', 0, 0, 0, 1, b'1'], vec![b'n']]));
    assert_eq!(
        decode_row_message(&text, &cache).unwrap_err(),
        RowMessageError::Tuple(TupleError::UnsupportedFormat(0))
    );
}

fn relation_message(table: u32, cols: &[(&str, u32, bool)]) -> Vec<u8> {
    let mut b = vec![b'R'];
    b.extend_from_slice(&table.to_be_bytes());
    b.extend_from_slice(b"public\0users\0");
    b.push(b'd');
    b.extend_from_slice(&(cols.len() as u16).to_be_bytes());
    for (name, oid, key) in cols {
        b.push(if *key { 1 } else { 0 });
        b.extend_from_slice(name.as_bytes());
        b.push(0);
        b.extend_from_slice(&oid.to_be_bytes());
        b.extend_from_slice(&(-1i32).to_be_bytes());
    }
    b
}

#[test]
fn relation_message_becomes_schema() {
    let s = decode_relation(&relation_message(7, &[("id", 23, true), ("name", 25, false)])).unwrap();
    assert_eq!(s.table_id, 7);
    assert_eq!(s.table_name.schema, "public");
    assert_eq!(s.table_name.name, "users");
    assert_eq!(s.column_schemas.len(), 2);
    assert_eq!(s.column_schemas[0].name, "id");
    assert_eq!(s.column_schemas[0].typ, 23);
    assert_eq!(s.column_schemas[0].modifier, -1);
    assert!(s.column_schemas[0].identity);
    assert!(!s.column_schemas[1].identity);
    let mut cut = relation_message(7, &[("id", 23, true)]);
    cut.truncate(cut.len() - 2);
    assert_eq!(decode_relation(&cut).unwrap_err(), RelationError::Malformed);
    assert_eq!(decode_relation(&[b'I']).unwrap_err(), RelationError::Malformed);
}

#[test]
fn rows_follow_schema_change_between_transactions() {
    let mut cache = SchemaCache::new();
    cache.apply_relation(decode_relation(&relation_message(7, &[("id", 23, true)])).unwrap());
    let mut t1 = row_message(b'I', 7);
    t1.push(b'N');
    t1.extend(tuple(&[binary_col(&1i32.to_be_bytes())]));
    assert!(decode_row_message(&t1, &cache).is_ok());
    cache.apply_relation(
        decode_relation(&relation_message(7, &[("id", 23, true), ("email", 25, false)])).unwrap(),
    );
    assert_eq!(
        decode_row_message(&t1, &cache).unwrap_err(),
        RowMessageError::Tuple(TupleError::ColumnCountMismatch)
    );
    let mut t2 = row_message(b'I', 7);
    t2.push(b'N');
    t2.extend(tuple(&[binary_col(&2i32.to_be_bytes()), binary_col(b"e@x")]));
    match decode_row_message(&t2, &cache).unwrap() {
        CdcEvent::Insert { row, .. } => {
            assert_eq!(row.values, vec![Cell::I32(2), Cell::String("e@x".to_string())])
        }
        _ => panic!("expected an insert"),
    }
}

#[test]
fn dates_and_timestamps_count_from_2000() {
    assert_eq!(
        decode_binary_cell(1082, 0i32.to_be_bytes().to_vec()),
        Ok(Cell::Date(Date { year: 2000, month: 1, day: 1 }))
    );
    assert_eq!(
        decode_binary_cell(1082, (-1i32).to_be_bytes().to_vec()),
        Ok(Cell::Date(Date { year: 1999, month: 12, day: 31 }))
    );
    assert_eq!(
        decode_binary_cell(1082, 59i32.to_be_bytes().to_vec()),
        Ok(Cell::Date(Date { year: 2000, month: 2, day: 29 }))
    );
    assert_eq!(
        decode_binary_cell(1114, (-1i64).to_be_bytes().to_vec()),
        Ok(Cell::TimeStamp(DateTime {
            date: Date { year: 1999, month: 12, day: 31 },
            time: Time { hour: 23, minute: 59, second: 59, micro: 999_999 },
        }))
    );
    let micros: i64 = 86_400_000_000 + 3_600_000_000;
    assert_eq!(
        decode_binary_cell(1184, micros.to_be_bytes().to_vec()),
        Ok(Cell::TimeStampTz(DateTime {
            date: Date { year: 2000, month: 1, day: 2 },
            time: Time { hour: 1, minute: 0, second: 0, micro: 0 },
        }))
    );
}

#[test]
fn date_range_matches_chrono() {
    let first = -95_746_129i32 - 730_120;
    let last = 95_745_399i32 - 730_120;
    assert_eq!(
        decode_binary_cell(1082, first.to_be_bytes().to_vec()),
        Ok(Cell::Date(Date { year: -262143, month: 1, day: 1 }))
    );
    assert_eq!(
        decode_binary_cell(1082, last.to_be_bytes().to_vec()),
        Ok(Cell::Date(Date { year: 262142, month: 12, day: 31 }))
    );
    assert_eq!(decode_binary_cell(1082, (first - 1).to_be_bytes().to_vec()), Err(ValueError::OutOfRange));
    assert_eq!(decode_binary_cell(1082, (last + 1).to_be_bytes().to_vec()), Err(ValueError::OutOfRange));
}

fn numeric(ndigits: u16, weight: i16, sign: u16, dscale: u16, digits: &[u16]) -> Vec<u8> {
    let mut b = Vec::new();
    for v in [ndigits, weight as u16, sign, dscale] {
        b.extend_from_slice(&v.to_be_bytes());
    }
    for d in digits {
        b.extend_from_slice(&d.to_be_bytes());
    }
    b
}

#[test]
fn numerics_decode_to_decimal_text() {
    let text = |b: Vec<u8>| match decode_binary_cell(1700, b) {
        Ok(Cell::Numeric(s)) => s,
        other => panic!("unexpected {:?}", other),
    };
    assert_eq!(text(numeric(2, 0, 0, 2, &[12, 5000])), "12.50");
    assert_eq!(text(numeric(3, 1, 0x4000, 3, &[1, 2345, 6780])), "-12345.678");
    assert_eq!(text(numeric(0, 0, 0, 0, &[])), "0");
    assert_eq!(text(numeric(1, -1, 0, 4, &[5])), "0.0005");
    assert_eq!(text(numeric(1, 2, 0, 0, &[7])), "700000000");
    assert_eq!(text(numeric(0, 0, 0xC000, 0, &[])), "NaN");
    assert_eq!(decode_binary_cell(1700, numeric(1, 0, 0, 0, &[10000])), Err(ValueError::BadNumeric));
    assert_eq!(decode_binary_cell(1700, numeric(1, 0, 0x1234, 0, &[1])), Err(ValueError::BadNumeric));
    let mut short = numeric(2, 0, 0, 0, &[1]);
    short.push(0);
    assert_eq!(decode_binary_cell(1700, short), Err(ValueError::BadNumeric));
}

#[test]
fn type_and_origin_messages() {
    let mut b = vec![b'Y'];
    b.extend_from_slice(&16385u32.to_be_bytes());
    b.extend_from_slice(b"public\0mood\0");
    match decode_type_message(&b).unwrap() {
        CdcEvent::Type { oid, namespace, name } => {
            assert_eq!(oid, 16385);
            assert_eq!(namespace, "public");
            assert_eq!(name, "mood");
        }
        _ => panic!("expected a type event"),
    }
    b.pop();
    assert_eq!(decode_type_message(&b).unwrap_err(), RelationError::Malformed);
    let mut o = vec![b'O'];
    o.extend_from_slice(&77u64.to_be_bytes());
    o.extend_from_slice(b"origin1\0");
    assert_eq!(decode_origin_message(&o).unwrap(), (77, "origin1".to_string()));
    let bad = [b'O', 0, 0, 0, 0, 0, 0, 0, 1, 0xff, 0];
    assert_eq!(decode_origin_message(&bad).unwrap_err(), RelationError::Malformed);
}
