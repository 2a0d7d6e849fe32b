//! SQL text for the BigQuery sink: cell literals, table definitions and the
//! statements that insert, update and delete rows and keep the sink's
//! replication state. Every identifier and string is quoted and escaped.
use vstd::prelude::*;
use crate::model::{Cell, ColumnSchema, TableSchema, TableRow, Lsn, TableId, cells_wf};
use crate::sink_types::{spec_bigquery_type, spec_type_name, postgres_type_to_bigquery_type};
use crate::text::{
    nat_text, int_text, hex_char, hex_digit, quoted, escaped, uuid_text_of, spec_date_text, spec_time_text,
    spec_timestamp_text, spec_timestamptz_text, push_char, push_str, push_nat, push_int,
    push_quoted, push_escaped, date_text, time_text, timestamp_text, timestamptz_text, uuid_text,
};

verus! {

/// An exact FLOAT64 expression for `(-1)^neg * m * 2^e`.
pub open spec fn float_literal(neg: bool, m: nat, e: int) -> Seq<char> {
    (if neg {
        "-"@
    } else {
        seq![]
    }) + "("@ + nat_text(m) + " * pow(2, "@ + int_text(e) + "))"@
}

pub open spec fn nan_literal() -> Seq<char> {
    "cast('nan' as float64)"@
}

pub open spec fn infinity_literal(neg: bool) -> Seq<char> {
    if neg {
        "cast('-inf' as float64)"@
    } else {
        "cast('inf' as float64)"@
    }
}

/// The literal of an IEEE-754 binary64 value given by its bits.
pub open spec fn f64_literal(bits: u64) -> Seq<char> {
    let neg = bits >= 0x8000_0000_0000_0000u64;
    let e = (bits / 0x10_0000_0000_0000u64) % 2048;
    let f = bits % 0x10_0000_0000_0000u64;
    if e == 2047 {
        if f != 0 {
            nan_literal()
        } else {
            infinity_literal(neg)
        }
    } else if e == 0 {
        float_literal(neg, f as nat, -1074)
    } else {
        float_literal(neg, (f + 0x10_0000_0000_0000u64) as nat, e - 1075)
    }
}

/// The literal of an IEEE-754 binary32 value given by its bits.
pub open spec fn f32_literal(bits: u32) -> Seq<char> {
    let neg = bits >= 0x8000_0000u32;
    let e = (bits / 0x80_0000u32) % 256;
    let f = bits % 0x80_0000u32;
    if e == 255 {
        if f != 0 {
            nan_literal()
        } else {
            infinity_literal(neg)
        }
    } else if e == 0 {
        float_literal(neg, f as nat, -149)
    } else {
        float_literal(neg, (f + 0x80_0000u32) as nat, e - 150)
    }
}

pub open spec fn string_literal(t: Seq<char>) -> Seq<char> {
    quoted(t, '\'')
}

/// How one byte is written inside a bytes literal: the quote and the
/// backslash are escaped, other printable ASCII stands as itself, and any
/// other byte is written `\xHH`.
pub open spec fn byte_escape(x: u8) -> Seq<char> {
    if x == 39 || x == 92 {
        seq!['\\', x as char]
    } else if 32 <= x < 127 {
        seq![x as char]
    } else {
        seq!['\\', 'x', hex_char(x as nat / 16), hex_char(x as nat % 16)]
    }
}

pub open spec fn byte_escapes(b: Seq<u8>) -> Seq<char>
    decreases b.len(),
{
    if b.len() == 0 {
        seq![]
    } else {
        byte_escapes(b.drop_last()) + byte_escape(b.last())
    }
}

fn push_byte_escapes(s: &mut String, b: &[u8])
    ensures
        final(s)@ == old(s)@ + byte_escapes(b@),
{
    let n = b.len();
    let mut i: usize = 0;
    while i < n
        invariant
            n == b@.len(),
            0 <= i <= n,
            s@ == old(s)@ + byte_escapes(b@.subrange(0, i as int)),
        decreases n - i,
    {
        let x = b[i];
        if x == 39 || x == 92 {
            push_char(s, '\\');
            push_char(s, x as char);
        } else if 32 <= x && x < 127 {
            push_char(s, x as char);
        } else {
            push_char(s, '\\');
            push_char(s, 'x');
            push_char(s, hex_digit(x / 16));
            push_char(s, hex_digit(x % 16));
        }
        assert(b@.subrange(0, i + 1).drop_last() =~= b@.subrange(0, i as int));
        assert(s@ =~= old(s)@ + byte_escapes(b@.subrange(0, i + 1)));
        i += 1;
    }
    assert(b@.subrange(0, n as int) =~= b@);
}

/// The SQL literal of a cell. A decimal `NaN`, which BigQuery's decimals
/// cannot hold, is written as null.
pub open spec fn cell_literal(c: Cell) -> Seq<char> {
    match c {
        Cell::Null => "null"@,
        Cell::Bool(b) => if b {
            "true"@
        } else {
            "false"@
        },
        Cell::String(s) => string_literal(s@),
        Cell::I16(i) => int_text(i as int),
        Cell::I32(i) => int_text(i as int),
        Cell::I64(i) => int_text(i as int),
        Cell::F32(bits) => f32_literal(bits),
        Cell::F64(bits) => f64_literal(bits),
        Cell::Numeric(s) => if s@ == "NaN"@ {
            "null"@
        } else {
            "bignumeric "@ + string_literal(s@)
        },
        Cell::Date(d) => string_literal(spec_date_text(d)),
        Cell::Time(t) => string_literal(spec_time_text(t)),
        Cell::TimeStamp(t) => string_literal(spec_timestamp_text(t)),
        Cell::TimeStampTz(t) => string_literal(spec_timestamptz_text(t)),
        Cell::Uuid(b) => string_literal(uuid_text_of(b@)),
        Cell::Bytes(b) => "b'"@ + byte_escapes(b@) + "'"@,
    }
}

fn push_float(s: &mut String, neg: bool, m: u64, e: i64)
    ensures
        final(s)@ == old(s)@ + float_literal(neg, m as nat, e as int),
{
    if neg {
        push_str(s, "-");
    }
    push_str(s, "(");
    push_nat(s, m);
    push_str(s, " * pow(2, ");
    push_int(s, e);
    push_str(s, "))");
    assert(final(s)@ =~= old(s)@ + float_literal(neg, m as nat, e as int));
}

fn push_f64(s: &mut String, bits: u64)
    ensures
        final(s)@ == old(s)@ + f64_literal(bits),
{
    let neg = bits >= 0x8000_0000_0000_0000u64;
    let e = (bits / 0x10_0000_0000_0000u64) % 2048;
    let f = bits % 0x10_0000_0000_0000u64;
    if e == 2047 {
        if f != 0 {
            push_str(s, "cast('nan' as float64)");
        } else if neg {
            push_str(s, "cast('-inf' as float64)");
        } else {
            push_str(s, "cast('inf' as float64)");
        }
    } else if e == 0 {
        push_float(s, neg, f, -1074);
    } else {
        push_float(s, neg, f + 0x10_0000_0000_0000u64, e as i64 - 1075);
    }
}

fn push_f32(s: &mut String, bits: u32)
    ensures
        final(s)@ == old(s)@ + f32_literal(bits),
{
    let neg = bits >= 0x8000_0000u32;
    let e = (bits / 0x80_0000u32) % 256;
    let f = bits % 0x80_0000u32;
    if e == 255 {
        if f != 0 {
            push_str(s, "cast('nan' as float64)");
        } else if neg {
            push_str(s, "cast('-inf' as float64)");
        } else {
            push_str(s, "cast('inf' as float64)");
        }
    } else if e == 0 {
        push_float(s, neg, f as u64, -149);
    } else {
        push_float(s, neg, (f + 0x80_0000u32) as u64, e as i64 - 150);
    }
}

fn push_string_literal(s: &mut String, t: &str)
    ensures
        final(s)@ == old(s)@ + string_literal(t@),
{
    push_quoted(s, t, '\'');
}

/// Appends the SQL literal of `cell`.
pub fn cell_to_query_value(cell: &Cell, s: &mut String)
    requires
        cell.wf(),
    ensures
        final(s)@ == old(s)@ + cell_literal(*cell),
{
    match cell {
        Cell::Null => push_str(s, "null"),
        Cell::Bool(b) => {
            if *b {
                push_str(s, "true")
            } else {
                push_str(s, "false")
            }
        },
        Cell::String(t) => push_string_literal(s, t.as_str()),
        Cell::I16(i) => push_int(s, *i as i64),
        Cell::I32(i) => push_int(s, *i as i64),
        Cell::I64(i) => push_int(s, *i),
        Cell::F32(bits) => push_f32(s, *bits),
        Cell::F64(bits) => push_f64(s, *bits),
        Cell::Numeric(t) => {
            let nan = String::from_str("NaN");
            if t.eq(&nan) {
                push_str(s, "null");
            } else {
                push_str(s, "bignumeric ");
                push_string_literal(s, t.as_str());
                assert(final(s)@ =~= old(s)@ + cell_literal(*cell));
            }
        },
        Cell::Date(d) => {
            let t = date_text(d);
            push_string_literal(s, t.as_str());
        },
        Cell::Time(x) => {
            let t = time_text(x);
            push_string_literal(s, t.as_str());
        },
        Cell::TimeStamp(x) => {
            let t = timestamp_text(x);
            push_string_literal(s, t.as_str());
        },
        Cell::TimeStampTz(x) => {
            let t = timestamptz_text(x);
            push_string_literal(s, t.as_str());
        },
        Cell::Uuid(b) => {
            let t = uuid_text(b);
            push_string_literal(s, t.as_str());
        },
        Cell::Bytes(b) => {
            push_str(s, "b'");
            push_byte_escapes(s, b.as_slice());
            push_str(s, "'");
            assert(final(s)@ =~= old(s)@ + cell_literal(*cell));
        },
    }
}

/// A quoted identifier.
pub open spec fn ident(t: Seq<char>) -> Seq<char> {
    quoted(t, '`')
}

/// `project.dataset.table`, quoted as one path.
pub open spec fn table_path(project: Seq<char>, dataset: Seq<char>, table: Seq<char>) -> Seq<char> {
    seq!['`'] + escaped(project, '`') + seq!['.'] + escaped(dataset, '`') + seq!['.'] + escaped(
        table,
        '`',
    ) + seq!['`']
}

/// Appends the quoted path of a table.
pub fn push_table_path(s: &mut String, project: &str, dataset: &str, table: &str)
    ensures
        final(s)@ == old(s)@ + table_path(project@, dataset@, table@),
{
    push_char(s, '`');
    push_escaped(s, project, '`');
    push_char(s, '.');
    push_escaped(s, dataset, '`');
    push_char(s, '.');
    push_escaped(s, table, '`');
    push_char(s, '`');
    assert(final(s)@ =~= old(s)@ + table_path(project@, dataset@, table@));
}

/// One column of a table definition: name, type and, for a column that may
/// not be null, `not null`.
pub open spec fn column_spec_text(c: ColumnSchema) -> Seq<char> {
    ident(c.name@) + " "@ + spec_type_name(spec_bigquery_type(c.typ)) + (if c.nullable {
        seq![]
    } else {
        " not null"@
    })
}

/// The first `n` column definitions, separated by commas.
pub open spec fn column_specs(cols: Seq<ColumnSchema>, n: nat) -> Seq<char>
    decreases n,
{
    if n == 0 || n > cols.len() {
        seq![]
    } else if n == 1 {
        column_spec_text(cols[0])
    } else {
        column_specs(cols, (n - 1) as nat) + ","@ + column_spec_text(cols[n - 1])
    }
}

/// The names of the identity columns among the first `n`, separated by commas.
pub open spec fn identity_names(cols: Seq<ColumnSchema>, n: nat) -> Seq<char>
    decreases n,
{
    if n == 0 || n > cols.len() {
        seq![]
    } else {
        let prev = identity_names(cols, (n - 1) as nat);
        if cols[n - 1].identity {
            if prev.len() == 0 {
                ident(cols[n - 1].name@)
            } else {
                prev + ","@ + ident(cols[n - 1].name@)
            }
        } else {
            prev
        }
    }
}

pub open spec fn has_identity(cols: Seq<ColumnSchema>) -> bool {
    exists|i: int| 0 <= i < cols.len() && (#[trigger] cols[i]).identity
}

/// The column list of a table definition, with a primary key over the
/// identity columns when there are any.
pub open spec fn columns_spec_text(cols: Seq<ColumnSchema>) -> Seq<char> {
    "("@ + column_specs(cols, cols.len()) + (if has_identity(cols) {
        ","@ + "primary key ("@ + identity_names(cols, cols.len()) + ") not enforced"@
    } else {
        seq![]
    }) + ")"@
}

/// Whether some column belongs to the replica identity, which update and
/// delete statements match rows by.
pub fn has_identity_column(column_schemas: &[ColumnSchema]) -> (r: bool)
    ensures
        r == has_identity(column_schemas@),
{
    let mut i: usize = 0;
    while i < column_schemas.len()
        invariant
            0 <= i <= column_schemas@.len(),
            forall|j: int| 0 <= j < i ==> !(#[trigger] column_schemas@[j]).identity,
        decreases column_schemas@.len() - i,
    {
        if column_schemas[i].identity {
            return true;
        }
        i += 1;
    }
    false
}

pub open spec fn has_non_identity(cols: Seq<ColumnSchema>) -> bool {
    exists|i: int| 0 <= i < cols.len() && !(#[trigger] cols[i]).identity
}

/// Whether some column lies outside the replica identity, so that an update
/// statement has something to set.
pub fn has_non_identity_column(column_schemas: &[ColumnSchema]) -> (r: bool)
    ensures
        r == has_non_identity(column_schemas@),
{
    let mut i: usize = 0;
    while i < column_schemas.len()
        invariant
            0 <= i <= column_schemas@.len(),
            forall|j: int| 0 <= j < i ==> (#[trigger] column_schemas@[j]).identity,
        decreases column_schemas@.len() - i,
    {
        if !column_schemas[i].identity {
            return true;
        }
        i += 1;
    }
    false
}

fn column_spec(column_schema: &ColumnSchema, s: &mut String)
    ensures
        final(s)@ == old(s)@ + column_spec_text(*column_schema),
{
    push_quoted(s, column_schema.name.as_str(), '`');
    push_str(s, " ");
    let typ = postgres_type_to_bigquery_type(column_schema.typ);
    push_str(s, typ.name());
    if !column_schema.nullable {
        push_str(s, " not null");
    }
    assert(final(s)@ =~= old(s)@ + column_spec_text(*column_schema));
}

fn add_primary_key_clause(column_schemas: &[ColumnSchema], s: &mut String)
    ensures
        final(s)@ == old(s)@ + "primary key ("@ + identity_names(
            column_schemas@,
            column_schemas@.len(),
        ) + ") not enforced"@,
{
    push_str(s, "primary key (");
    let ghost start = s@;
    assert(s@ =~= start + identity_names(column_schemas@, 0));
    let n = column_schemas.len();
    let mut any = false;
    let mut i: usize = 0;
    while i < n
        invariant
            n == column_schemas@.len(),
            0 <= i <= n,
            s@ == start + identity_names(column_schemas@, i as nat),
            any == (identity_names(column_schemas@, i as nat).len() != 0),
        decreases n - i,
    {
        let column = &column_schemas[i];
        if column.identity {
            if any {
                push_str(s, ",");
            }
            push_quoted(s, column.name.as_str(), '`');
            any = true;
        }
        assert(s@ =~= start + identity_names(column_schemas@, (i + 1) as nat));
        i += 1;
    }
    push_str(s, ") not enforced");
    assert(final(s)@ =~= old(s)@ + "primary key ("@ + identity_names(
        column_schemas@,
        column_schemas@.len(),
    ) + ") not enforced"@);
}

/// The parenthesised column list of a table definition.
pub fn create_columns_spec(column_schemas: &[ColumnSchema]) -> (r: String)
    ensures
        r@ == columns_spec_text(column_schemas@),
{
    let mut s = String::new();
    push_str(&mut s, "(");
    let n = column_schemas.len();
    let mut has_identity_cols = false;
    assert(s@ =~= "("@ + column_specs(column_schemas@, 0));
    let mut i: usize = 0;
    while i < n
        invariant
            n == column_schemas@.len(),
            0 <= i <= n,
            s@ == "("@ + column_specs(column_schemas@, i as nat),
            has_identity_cols == exists|j: int|
                0 <= j < i && (#[trigger] column_schemas@[j]).identity,
        decreases n - i,
    {
        if i > 0 {
            push_str(&mut s, ",");
        }
        column_spec(&column_schemas[i], &mut s);
        if column_schemas[i].identity {
            has_identity_cols = true;
        }
        assert(s@ =~= "("@ + column_specs(column_schemas@, (i + 1) as nat));
        i += 1;
    }
    assert(has_identity_cols == has_identity(column_schemas@));
    let ghost body = s@;
    if has_identity_cols {
        push_str(&mut s, ",");
        add_primary_key_clause(column_schemas, &mut s);
        assert(s@ =~= body + (","@ + "primary key ("@ + identity_names(column_schemas@, n as nat)
            + ") not enforced"@));
    } else {
        assert(s@ =~= body + seq![]);
    }
    push_str(&mut s, ")");
    assert(s@ =~= columns_spec_text(column_schemas@));
    s
}

pub open spec fn max_staleness_text(mins: u16) -> Seq<char> {
    "options (max_staleness = interval "@ + nat_text(mins as nat) + " minute)"@
}

/// The table option that lets reads lag writes by `max_staleness_mins` minutes.
pub fn max_staleness_option(max_staleness_mins: u16) -> (r: String)
    ensures
        r@ == max_staleness_text(max_staleness_mins),
{
    let mut s = String::new();
    push_str(&mut s, "options (max_staleness = interval ");
    push_nat(&mut s, max_staleness_mins as u64);
    push_str(&mut s, " minute)");
    assert(s@ =~= max_staleness_text(max_staleness_mins));
    s
}

/// Minutes that reads of a created table may lag its writes.
pub const MAX_STALENESS_MINS: u16 = 5;

pub open spec fn create_table_text(
    project: Seq<char>,
    dataset: Seq<char>,
    table: Seq<char>,
    cols: Seq<ColumnSchema>,
) -> Seq<char> {
    "create table "@ + table_path(project, dataset, table) + " "@ + columns_spec_text(cols) + " "@
        + max_staleness_text(MAX_STALENESS_MINS)
}

/// The statement that creates a table for `column_schemas`.
pub fn create_table_query(
    project_id: &str,
    dataset_id: &str,
    table_name: &str,
    column_schemas: &[ColumnSchema],
) -> (r: String)
    ensures
        r@ == create_table_text(project_id@, dataset_id@, table_name@, column_schemas@),
{
    let mut s = String::new();
    push_str(&mut s, "create table ");
    push_table_path(&mut s, project_id, dataset_id, table_name);
    push_str(&mut s, " ");
    let columns_spec = create_columns_spec(column_schemas);
    push_str(&mut s, columns_spec.as_str());
    push_str(&mut s, " ");
    let option = max_staleness_option(MAX_STALENESS_MINS);
    push_str(&mut s, option.as_str());
    assert(s@ =~= create_table_text(project_id@, dataset_id@, table_name@, column_schemas@));
    s
}

/// The literals of the first `n` cells, separated by commas.
pub open spec fn values_text(cells: Seq<Cell>, n: nat) -> Seq<char>
    decreases n,
{
    if n == 0 || n > cells.len() {
        seq![]
    } else if n == 1 {
        cell_literal(cells[0])
    } else {
        values_text(cells, (n - 1) as nat) + ","@ + cell_literal(cells[n - 1])
    }
}

pub open spec fn insert_text(
    project: Seq<char>,
    dataset: Seq<char>,
    table: Seq<char>,
    cells: Seq<Cell>,
) -> Seq<char> {
    "insert into "@ + table_path(project, dataset, table) + " values("@ + values_text(
        cells,
        cells.len(),
    ) + ")"@
}

/// The statement that inserts `table_row`.
pub fn create_insert_row_query(
    project_id: &str,
    dataset_id: &str,
    table_name: &str,
    table_row: &TableRow,
) -> (r: String)
    requires
        cells_wf(table_row.values@),
    ensures
        r@ == insert_text(project_id@, dataset_id@, table_name@, table_row.values@),
{
    let mut s = String::new();
    push_str(&mut s, "insert into ");
    push_table_path(&mut s, project_id, dataset_id, table_name);
    push_str(&mut s, " values(");
    let ghost start = s@;
    assert(s@ =~= start + values_text(table_row.values@, 0));
    let n = table_row.values.len();
    let mut i: usize = 0;
    while i < n
        invariant
            n == table_row.values@.len(),
            cells_wf(table_row.values@),
            0 <= i <= n,
            s@ == start + values_text(table_row.values@, i as nat),
        decreases n - i,
    {
        if i > 0 {
            push_str(&mut s, ",");
        }
        cell_to_query_value(&table_row.values[i], &mut s);
        assert(s@ =~= start + values_text(table_row.values@, (i + 1) as nat));
        i += 1;
    }
    push_str(&mut s, ")");
    assert(s@ =~= insert_text(project_id@, dataset_id@, table_name@, table_row.values@));
    s
}

/// `column = literal`.
pub open spec fn assignment_text(c: ColumnSchema, v: Cell) -> Seq<char> {
    ident(c.name@) + " = "@ + cell_literal(v)
}

/// The assignments of the columns among the first `n` whose identity flag is
/// `identity`, separated by `sep`.
pub open spec fn assignments(
    cols: Seq<ColumnSchema>,
    cells: Seq<Cell>,
    n: nat,
    identity: bool,
    sep: Seq<char>,
) -> Seq<char>
    decreases n,
{
    if n == 0 || n > cols.len() || n > cells.len() {
        seq![]
    } else {
        let prev = assignments(cols, cells, (n - 1) as nat, identity, sep);
        if cols[n - 1].identity == identity {
            if prev.len() == 0 {
                assignment_text(cols[n - 1], cells[n - 1])
            } else {
                prev + sep + assignment_text(cols[n - 1], cells[n - 1])
            }
        } else {
            prev
        }
    }
}

pub open spec fn paired_len(cols: Seq<ColumnSchema>, cells: Seq<Cell>) -> nat {
    if cols.len() < cells.len() {
        cols.len()
    } else {
        cells.len()
    }
}

fn push_assignments(
    s: &mut String,
    column_schemas: &[ColumnSchema],
    table_row: &TableRow,
    identity: bool,
    sep: &str,
)
    requires
        cells_wf(table_row.values@),
    ensures
        final(s)@ == old(s)@ + assignments(
            column_schemas@,
            table_row.values@,
            paired_len(column_schemas@, table_row.values@),
            identity,
            sep@,
        ),
{
    let ghost start = s@;
    assert(s@ =~= start + assignments(column_schemas@, table_row.values@, 0, identity, sep@));
    let n = if column_schemas.len() < table_row.values.len() {
        column_schemas.len()
    } else {
        table_row.values.len()
    };
    let mut any = false;
    let mut i: usize = 0;
    while i < n
        invariant
            n == paired_len(column_schemas@, table_row.values@),
            cells_wf(table_row.values@),
            0 <= i <= n,
            s@ == start + assignments(column_schemas@, table_row.values@, i as nat, identity, sep@),
            any == (assignments(column_schemas@, table_row.values@, i as nat, identity, sep@).len()
                != 0),
        decreases n - i,
    {
        let column = &column_schemas[i];
        if column.identity == identity {
            if any {
                push_str(s, sep);
            }
            push_quoted(s, column.name.as_str(), '`');
            push_str(s, " = ");
            cell_to_query_value(&table_row.values[i], s);
            any = true;
        }
        assert(s@ =~= start + assignments(
            column_schemas@,
            table_row.values@,
            (i + 1) as nat,
            identity,
            sep@,
        ));
        i += 1;
    }
}

pub open spec fn where_text(cols: Seq<ColumnSchema>, cells: Seq<Cell>) -> Seq<char> {
    " where "@ + assignments(cols, cells, paired_len(cols, cells), true, " and "@)
}

/// Appends a where clause matching the row's identity columns.
fn add_identities_where_clause(s: &mut String, column_schemas: &[ColumnSchema], table_row: &TableRow)
    requires
        cells_wf(table_row.values@),
    ensures
        final(s)@ == old(s)@ + where_text(column_schemas@, table_row.values@),
{
    push_str(s, " where ");
    push_assignments(s, column_schemas, table_row, true, " and ");
    assert(final(s)@ =~= old(s)@ + where_text(column_schemas@, table_row.values@));
}

pub open spec fn update_text(table: Seq<char>, cols: Seq<ColumnSchema>, cells: Seq<Cell>) -> Seq<
    char,
> {
    "update "@ + table + " set "@ + assignments(cols, cells, paired_len(cols, cells), false, ","@)
        + where_text(cols, cells)
}

/// The statement that sets the row's other columns where its identity
/// columns match; `table_name` is an already quoted table path. Cell `k`
/// binds to column `k`: the row has one cell per column, some column belongs
/// to the replica identity and some does not.
pub fn create_update_row_query(
    table_name: &str,
    column_schemas: &[ColumnSchema],
    table_row: &TableRow,
) -> (r: String)
    requires
        cells_wf(table_row.values@),
        has_identity(column_schemas@),
        has_non_identity(column_schemas@),
        column_schemas@.len() == table_row.values@.len(),
    ensures
        r@ == update_text(table_name@, column_schemas@, table_row.values@),
{
    let mut s = String::new();
    push_str(&mut s, "update ");
    push_str(&mut s, table_name);
    push_str(&mut s, " set ");
    push_assignments(&mut s, column_schemas, table_row, false, ",");
    add_identities_where_clause(&mut s, column_schemas, table_row);
    assert(s@ =~= update_text(table_name@, column_schemas@, table_row.values@));
    s
}

pub open spec fn delete_text(table: Seq<char>, cols: Seq<ColumnSchema>, cells: Seq<Cell>) -> Seq<
    char,
> {
    "delete from "@ + table + where_text(cols, cells)
}

/// The statement that deletes the rows whose identity columns match; the row
/// has one cell per column, and some column belongs to the replica identity.
pub fn create_delete_row_query(
    table_name: &str,
    column_schemas: &[ColumnSchema],
    table_row: &TableRow,
) -> (r: String)
    requires
        cells_wf(table_row.values@),
        has_identity(column_schemas@),
        column_schemas@.len() == table_row.values@.len(),
    ensures
        r@ == delete_text(table_name@, column_schemas@, table_row.values@),
{
    let mut s = String::new();
    push_str(&mut s, "delete from ");
    push_str(&mut s, table_name);
    add_identities_where_clause(&mut s, column_schemas, table_row);
    assert(s@ =~= delete_text(table_name@, column_schemas@, table_row.values@));
    s
}

/// The quoted path of the table that mirrors `table_schema`.
pub fn schema_table_path(project_id: &str, dataset_id: &str, table_schema: &TableSchema) -> (r:
    String)
    ensures
        r@ == table_path(project_id@, dataset_id@, table_schema.table_name.name@),
{
    let mut s = String::new();
    push_table_path(&mut s, project_id, dataset_id, table_schema.table_name.name.as_str());
    assert(s@ =~= table_path(project_id@, dataset_id@, table_schema.table_name.name@));
    s
}

pub open spec fn table_exists_text(dataset: Seq<char>, table: Seq<char>) -> Seq<char> {
    "select exists (select * from "@ + ident(dataset) + ".INFORMATION_SCHEMA.TABLES where table_name = "@
        + string_literal(table) + ") as table_exists"@
}

/// The query whose `table_exists` column tells whether the table exists.
pub fn table_exists_query(dataset_id: &str, table_name: &str) -> (r: String)
    ensures
        r@ == table_exists_text(dataset_id@, table_name@),
{
    let mut s = String::new();
    push_str(&mut s, "select exists (select * from ");
    push_quoted(&mut s, dataset_id, '`');
    push_str(&mut s, ".INFORMATION_SCHEMA.TABLES where table_name = ");
    push_string_literal(&mut s, table_name);
    push_str(&mut s, ") as table_exists");
    assert(s@ =~= table_exists_text(dataset_id@, table_name@));
    s
}

pub open spec fn get_last_lsn_text(project: Seq<char>, dataset: Seq<char>) -> Seq<char> {
    "select lsn from "@ + table_path(project, dataset, "last_lsn"@)
}

/// The query that reads the last acknowledged log position.
pub fn get_last_lsn_query(project_id: &str, dataset_id: &str) -> (r: String)
    ensures
        r@ == get_last_lsn_text(project_id@, dataset_id@),
{
    let mut s = String::new();
    push_str(&mut s, "select lsn from ");
    push_table_path(&mut s, project_id, dataset_id, "last_lsn");
    assert(s@ =~= get_last_lsn_text(project_id@, dataset_id@));
    s
}

pub open spec fn set_last_lsn_text(project: Seq<char>, dataset: Seq<char>, lsn: Lsn) -> Seq<char> {
    "update "@ + table_path(project, dataset, "last_lsn"@) + " set lsn = "@ + nat_text(lsn as nat)
        + " where id = 1"@
}

/// The statement that records `lsn` as the last acknowledged log position.
pub fn set_last_lsn_query(project_id: &str, dataset_id: &str, lsn: Lsn) -> (r: String)
    ensures
        r@ == set_last_lsn_text(project_id@, dataset_id@, lsn),
{
    let mut s = String::new();
    push_str(&mut s, "update ");
    push_table_path(&mut s, project_id, dataset_id, "last_lsn");
    push_str(&mut s, " set lsn = ");
    push_nat(&mut s, lsn);
    push_str(&mut s, " where id = 1");
    assert(s@ =~= set_last_lsn_text(project_id@, dataset_id@, lsn));
    s
}

pub open spec fn insert_last_lsn_row_text(project: Seq<char>, dataset: Seq<char>) -> Seq<char> {
    "insert into "@ + table_path(project, dataset, "last_lsn"@) + " (id, lsn) values (1, 0)"@
}

/// The statement that starts the position register at 0.
pub fn insert_last_lsn_row_query(project_id: &str, dataset_id: &str) -> (r: String)
    ensures
        r@ == insert_last_lsn_row_text(project_id@, dataset_id@),
{
    let mut s = String::new();
    push_str(&mut s, "insert into ");
    push_table_path(&mut s, project_id, dataset_id, "last_lsn");
    push_str(&mut s, " (id, lsn) values (1, 0)");
    assert(s@ =~= insert_last_lsn_row_text(project_id@, dataset_id@));
    s
}

pub open spec fn get_copied_table_ids_text(project: Seq<char>, dataset: Seq<char>) -> Seq<char> {
    "select table_id from "@ + table_path(project, dataset, "copied_tables"@)
}

/// The query that lists the tables copied so far.
pub fn get_copied_table_ids_query(project_id: &str, dataset_id: &str) -> (r: String)
    ensures
        r@ == get_copied_table_ids_text(project_id@, dataset_id@),
{
    let mut s = String::new();
    push_str(&mut s, "select table_id from ");
    push_table_path(&mut s, project_id, dataset_id, "copied_tables");
    assert(s@ =~= get_copied_table_ids_text(project_id@, dataset_id@));
    s
}

pub open spec fn insert_copied_table_text(
    project: Seq<char>,
    dataset: Seq<char>,
    table_id: TableId,
) -> Seq<char> {
    "insert into "@ + table_path(project, dataset, "copied_tables"@) + " (table_id) values ("@
        + nat_text(table_id as nat) + ")"@
}

/// The statement that records `table_id` as copied.
pub fn insert_into_copied_tables_query(project_id: &str, dataset_id: &str, table_id: TableId) -> (r:
    String)
    ensures
        r@ == insert_copied_table_text(project_id@, dataset_id@, table_id),
{
    let mut s = String::new();
    push_str(&mut s, "insert into ");
    push_table_path(&mut s, project_id, dataset_id, "copied_tables");
    push_str(&mut s, " (table_id) values (");
    push_nat(&mut s, table_id as u64);
    push_str(&mut s, ")");
    assert(s@ =~= insert_copied_table_text(project_id@, dataset_id@, table_id));
    s
}

pub open spec fn drop_table_text(project: Seq<char>, dataset: Seq<char>, table: Seq<char>) -> Seq<
    char,
> {
    "drop table "@ + table_path(project, dataset, table)
}

/// The statement that drops a table.
pub fn drop_table_query(project_id: &str, dataset_id: &str, table_name: &str) -> (r: String)
    ensures
        r@ == drop_table_text(project_id@, dataset_id@, table_name@),
{
    let mut s = String::new();
    push_str(&mut s, "drop table ");
    push_table_path(&mut s, project_id, dataset_id, table_name);
    assert(s@ =~= drop_table_text(project_id@, dataset_id@, table_name@));
    s
}

} // verus!
