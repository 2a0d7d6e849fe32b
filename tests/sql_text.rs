use pg_replicate::model::{
    Cell, ColumnSchema, Date, DateTime, TableName, TableRow, TableSchema, Time, INT4_OID, TEXT_OID,
    BOOL_OID, NUMERIC_OID,
};
use pg_replicate::sql::{
    cell_to_query_value, create_columns_spec, create_delete_row_query, create_insert_row_query,
    create_table_query, create_update_row_query, drop_table_query, get_copied_table_ids_query,
    get_last_lsn_query, insert_into_copied_tables_query, insert_last_lsn_row_query,
    has_identity_column, max_staleness_option, schema_table_path, set_last_lsn_query, table_exists_query,
};

fn col(name: &str, typ: u32, nullable: bool, identity: bool) -> ColumnSchema {
    ColumnSchema { name: name.to_string(), typ, modifier: -1, nullable, identity }
}

fn users() -> Vec<ColumnSchema> {
    vec![col("id", INT4_OID, false, true), col("name", TEXT_OID, true, false)]
}

fn literal(c: Cell) -> String {
    let mut s = String::new();
    cell_to_query_value(&c, &mut s);
    s
}

#[test]
fn literals_of_scalars() {
    assert_eq!(literal(Cell::Null), "null");
    assert_eq!(literal(Cell::Bool(true)), "true");
    assert_eq!(literal(Cell::Bool(false)), "false");
    assert_eq!(literal(Cell::I16(-7)), "-7");
    assert_eq!(literal(Cell::I32(0)), "0");
    assert_eq!(literal(Cell::I64(i64::MIN)), "-9223372036854775808");
    assert_eq!(literal(Cell::I64(i64::MAX)), "9223372036854775807");
}

#[test]
fn string_literals_are_escaped() {
    assert_eq!(literal(Cell::String("a".to_string())), "'a'");
    assert_eq!(literal(Cell::String("it's".to_string())), "'it\\'s'");
    assert_eq!(literal(Cell::String("a\\b\nc".to_string())), "'a\\\\b\\nc'");
    assert_eq!(literal(Cell::String("é".to_string())), "'é'");
}

#[test]
fn bytes_literal_escapes_quotes_and_unprintable_bytes() {
    assert_eq!(literal(Cell::Bytes(vec![104, 105])), "b'hi'");
    assert_eq!(literal(Cell::Bytes(vec![0x00, 0xab, 0x7f])), "b'\\x00\\xab\\x7f'");
    assert_eq!(literal(Cell::Bytes(vec![b'\'', b'\\', b' '])), "b'\\'\\\\ '");
    assert_eq!(literal(Cell::Bytes(vec![])), "b''");
}

#[test]
fn numeric_literal_and_nan() {
    assert_eq!(literal(Cell::Numeric("12.50".to_string())), "bignumeric '12.50'");
    assert_eq!(literal(Cell::Numeric("NaN".to_string())), "null");
}

#[test]
fn float_literals_are_exact() {
    assert_eq!(literal(Cell::F64(1.5f64.to_bits())), "(6755399441055744 * pow(2, -52))");
    assert_eq!(literal(Cell::F64((-2.0f64).to_bits())), "-(4503599627370496 * pow(2, -51))");
    assert_eq!(literal(Cell::F64(0.0f64.to_bits())), "(0 * pow(2, -1074))");
    assert_eq!(literal(Cell::F64(f64::INFINITY.to_bits())), "cast('inf' as float64)");
    assert_eq!(literal(Cell::F64(f64::NEG_INFINITY.to_bits())), "cast('-inf' as float64)");
    assert_eq!(literal(Cell::F64(f64::NAN.to_bits())), "cast('nan' as float64)");
    assert_eq!(literal(Cell::F32(1.0f32.to_bits())), "(8388608 * pow(2, -23))");
    assert_eq!(literal(Cell::F32(f32::NAN.to_bits())), "cast('nan' as float64)");
    let bits = 0.1f64.to_bits();
    let m = (bits & ((1u64 << 52) - 1)) | (1u64 << 52);
    let e = ((bits >> 52) & 0x7ff) as i64 - 1075;
    assert_eq!(m as f64 * 2f64.powi(e as i32), 0.1);
}

#[test]
fn temporal_and_uuid_literals() {
    let d = Date { year: 2024, month: 2, day: 29 };
    let t = Time { hour: 13, minute: 5, second: 9, micro: 250_000 };
    assert_eq!(literal(Cell::Date(d)), "'2024-02-29'");
    assert_eq!(literal(Cell::Time(t)), "'13:05:09.250'");
    assert_eq!(literal(Cell::TimeStamp(DateTime { date: d, time: t })), "'2024-02-29 13:05:09.250'");
    assert_eq!(
        literal(Cell::TimeStampTz(DateTime { date: d, time: t })),
        "'2024-02-29 13:05:09.250+00:00'"
    );
    let mut u = [0u8; 16];
    for (i, b) in u.iter_mut().enumerate() {
        *b = i as u8 * 17;
    }
    assert_eq!(literal(Cell::Uuid(u)), "'00112233-4455-6677-8899-aabbccddeeff'");
}

#[test]
fn columns_spec_with_primary_key() {
    assert_eq!(
        create_columns_spec(&users()),
        "(`id` int64 not null,`name` string,primary key (`id`) not enforced)"
    );
}

#[test]
fn columns_spec_without_identity() {
    let cols = vec![col("flag", BOOL_OID, true, false), col("amount", NUMERIC_OID, false, false)];
    assert_eq!(create_columns_spec(&cols), "(`flag` bool,`amount` bignumeric not null)");
    assert_eq!(create_columns_spec(&[]), "()");
}

#[test]
fn columns_spec_with_two_identity_columns() {
    let cols = vec![
        col("a", INT4_OID, false, true),
        col("b", TEXT_OID, true, false),
        col("c", TEXT_OID, false, true),
    ];
    assert_eq!(
        create_columns_spec(&cols),
        "(`a` int64 not null,`b` string,`c` string not null,primary key (`a`,`c`) not enforced)"
    );
}

#[test]
fn identifiers_are_escaped() {
    let cols = vec![col("we`ird", TEXT_OID, true, false)];
    assert_eq!(create_columns_spec(&cols), "(`we\\`ird` string)");
}

#[test]
fn create_table_statement() {
    assert_eq!(max_staleness_option(5), "options (max_staleness = interval 5 minute)");
    assert_eq!(
        create_table_query("proj", "ds", "users", &users()),
        "create table `proj.ds.users` (`id` int64 not null,`name` string,primary key (`id`) not enforced) options (max_staleness = interval 5 minute)"
    );
}

#[test]
fn insert_statement() {
    let row = TableRow { values: vec![Cell::I32(1), Cell::String("a".to_string())] };
    assert_eq!(
        create_insert_row_query("proj", "ds", "users", &row),
        "insert into `proj.ds.users` values(1,'a')"
    );
}

#[test]
fn update_and_delete_statements() {
    let schema = TableSchema {
        table_id: 1,
        table_name: TableName { schema: "public".to_string(), name: "users".to_string() },
        column_schemas: users(),
    };
    let path = schema_table_path("proj", "ds", &schema);
    assert_eq!(path, "`proj.ds.users`");
    let row = TableRow { values: vec![Cell::I32(1), Cell::String("b".to_string())] };
    assert_eq!(
        create_update_row_query(&path, &schema.column_schemas, &row),
        "update `proj.ds.users` set `name` = 'b' where `id` = 1"
    );
    assert_eq!(
        create_delete_row_query(&path, &schema.column_schemas, &row),
        "delete from `proj.ds.users` where `id` = 1"
    );
}

#[test]
fn where_clause_joins_identity_columns() {
    let cols = vec![col("a", INT4_OID, false, true), col("b", INT4_OID, false, true)];
    let row = TableRow { values: vec![Cell::I32(1), Cell::I32(2)] };
    assert_eq!(
        create_delete_row_query("t", &cols, &row),
        "delete from t where `a` = 1 and `b` = 2"
    );
}

#[test]
fn replication_state_statements() {
    assert_eq!(
        table_exists_query("ds", "users"),
        "select exists (select * from `ds`.INFORMATION_SCHEMA.TABLES where table_name = 'users') as table_exists"
    );
    assert_eq!(get_last_lsn_query("p", "d"), "select lsn from `p.d.last_lsn`");
    assert_eq!(set_last_lsn_query("p", "d", 104), "update `p.d.last_lsn` set lsn = 104 where id = 1");
    assert_eq!(
        insert_last_lsn_row_query("p", "d"),
        "insert into `p.d.last_lsn` (id, lsn) values (1, 0)"
    );
    assert_eq!(get_copied_table_ids_query("p", "d"), "select table_id from `p.d.copied_tables`");
    assert_eq!(
        insert_into_copied_tables_query("p", "d", 7),
        "insert into `p.d.copied_tables` (table_id) values (7)"
    );
    assert_eq!(drop_table_query("p", "d", "t"), "drop table `p.d.t`");
}

#[test]
fn identity_column_check() {
    assert!(has_identity_column(&users()));
    assert!(!has_identity_column(&[col("a", TEXT_OID, true, false)]));
    assert!(!has_identity_column(&[]));
}

#[test]
fn temporal_text_edge_cases() {
    let d = |year, month, day| literal(Cell::Date(Date { year, month, day }));
    assert_eq!(d(5, 3, 7), "'0005-03-07'");
    assert_eq!(d(0, 1, 1), "'0000-01-01'");
    assert_eq!(d(-5, 1, 1), "'-0005-01-01'");
    assert_eq!(d(12345, 12, 31), "'+12345-12-31'");
    let t = |micro| literal(Cell::Time(Time { hour: 1, minute: 2, second: 3, micro }));
    assert_eq!(t(0), "'01:02:03'");
    assert_eq!(t(1000), "'01:02:03.001'");
    assert_eq!(t(123_456), "'01:02:03.123456'");
    assert_eq!(t(5), "'01:02:03.000005'");
    let at = DateTime { date: Date { year: 1999, month: 12, day: 31 }, time: Time { hour: 23, minute: 59, second: 59, micro: 0 } };
    assert_eq!(literal(Cell::TimeStampTz(at)), "'1999-12-31 23:59:59+00:00'");
}
