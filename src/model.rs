//! Tables, columns, cells, rows and change events.
use vstd::prelude::*;

verus! {

/// Log sequence number: a totally ordered position in the upstream log.
pub type Lsn = u64;

/// Identifier the upstream database assigns to a table.
pub type TableId = u32;

/// Object identifier of an upstream column type.
pub type Oid = u32;

pub const BOOL_OID: Oid = 16;
pub const BYTEA_OID: Oid = 17;
pub const CHAR_OID: Oid = 18;
pub const NAME_OID: Oid = 19;
pub const INT8_OID: Oid = 20;
pub const INT2_OID: Oid = 21;
pub const INT4_OID: Oid = 23;
pub const TEXT_OID: Oid = 25;
pub const FLOAT4_OID: Oid = 700;
pub const FLOAT8_OID: Oid = 701;
pub const BPCHAR_OID: Oid = 1042;
pub const VARCHAR_OID: Oid = 1043;
pub const DATE_OID: Oid = 1082;
pub const TIME_OID: Oid = 1083;
pub const TIMESTAMP_OID: Oid = 1114;
pub const TIMESTAMPTZ_OID: Oid = 1184;
pub const NUMERIC_OID: Oid = 1700;
pub const UUID_OID: Oid = 2950;

/// Smallest and largest calendar year a date may carry.
pub const MIN_YEAR: i32 = -262143;
pub const MAX_YEAR: i32 = 262142;

pub open spec fn is_leap_year(y: int) -> bool {
    (y % 4 == 0 && y % 100 != 0) || y % 400 == 0
}

pub open spec fn days_in_month(y: int, m: int) -> int {
    if m == 2 {
        if is_leap_year(y) { 29 } else { 28 }
    } else if m == 4 || m == 6 || m == 9 || m == 11 {
        30
    } else {
        31
    }
}

/// A calendar date (proleptic Gregorian).
#[derive(Clone, Copy, Debug, PartialEq, Eq, Structural)]
pub struct Date {
    pub year: i32,
    pub month: u32,
    pub day: u32,
}

impl Date {
    pub open spec fn wf(self) -> bool {
        &&& MIN_YEAR <= self.year <= MAX_YEAR
        &&& 1 <= self.month <= 12
        &&& 1 <= self.day <= days_in_month(self.year as int, self.month as int)
    }
}

impl Date {
    /// Whether the date exists in the calendar and lies in the supported years.
    pub fn is_valid(&self) -> (r: bool)
        ensures
            r == self.wf(),
    {
        if self.year < MIN_YEAR || self.year > MAX_YEAR || self.month < 1 || self.month > 12
            || self.day < 1 {
            return false;
        }
        let leap = (self.year % 4 == 0 && self.year % 100 != 0) || self.year % 400 == 0;
        let days: u32 = if self.month == 2 {
            if leap {
                29
            } else {
                28
            }
        } else if self.month == 4 || self.month == 6 || self.month == 9 || self.month == 11 {
            30
        } else {
            31
        };
        self.day <= days
    }
}

/// A time of day with microsecond precision.
#[derive(Clone, Copy, Debug, PartialEq, Eq, Structural)]
pub struct Time {
    pub hour: u32,
    pub minute: u32,
    pub second: u32,
    pub micro: u32,
}

impl Time {
    pub open spec fn wf(self) -> bool {
        &&& self.hour < 24
        &&& self.minute < 60
        &&& self.second < 60
        &&& self.micro < 1_000_000
    }
}

impl Time {
    /// Whether the fields make a time of day.
    pub fn is_valid(&self) -> (r: bool)
        ensures
            r == self.wf(),
    {
        self.hour < 24 && self.minute < 60 && self.second < 60 && self.micro < 1_000_000
    }
}

/// A date and a time of day; without zone, or in UTC where the cell says so.
#[derive(Clone, Copy, Debug, PartialEq, Eq, Structural)]
pub struct DateTime {
    pub date: Date,
    pub time: Time,
}

impl DateTime {
    pub open spec fn wf(self) -> bool {
        self.date.wf() && self.time.wf()
    }
}

/// One column value. Floating-point values are carried as their IEEE-754 bit
/// patterns; an arbitrary-precision decimal as its decimal text (or `NaN`).
#[derive(Clone, Debug, PartialEq, Eq)]
pub enum Cell {
    Null,
    Bool(bool),
    String(String),
    I16(i16),
    I32(i32),
    I64(i64),
    F32(u32),
    F64(u64),
    Numeric(String),
    Date(Date),
    Time(Time),
    TimeStamp(DateTime),
    TimeStampTz(DateTime),
    Uuid([u8; 16]),
    Bytes(Vec<u8>),
}

impl Cell {
    /// The temporal values a cell carries are real dates and times.
    pub open spec fn wf(self) -> bool {
        match self {
            Cell::Date(d) => d.wf(),
            Cell::Time(t) => t.wf(),
            Cell::TimeStamp(t) => t.wf(),
            Cell::TimeStampTz(t) => t.wf(),
            _ => true,
        }
    }
}

impl Cell {
    /// Whether the cell's temporal value, if any, is a real date and time.
    pub fn is_valid(&self) -> (r: bool)
        ensures
            r == self.wf(),
    {
        match self {
            Cell::Date(d) => d.is_valid(),
            Cell::Time(t) => t.is_valid(),
            Cell::TimeStamp(t) => t.date.is_valid() && t.time.is_valid(),
            Cell::TimeStampTz(t) => t.date.is_valid() && t.time.is_valid(),
            _ => true,
        }
    }
}

/// Whether every cell of `cells` is well formed.
pub open spec fn cells_wf(cells: Seq<Cell>) -> bool {
    forall|i: int| 0 <= i < cells.len() ==> (#[trigger] cells[i]).wf()
}

/// Checks every cell of a row.
pub fn cells_are_valid(cells: &Vec<Cell>) -> (r: bool)
    ensures
        r == cells_wf(cells@),
{
    let mut i: usize = 0;
    while i < cells.len()
        invariant
            0 <= i <= cells@.len(),
            forall|j: int| 0 <= j < i ==> (#[trigger] cells@[j]).wf(),
        decreases cells@.len() - i,
    {
        if !cells[i].is_valid() {
            return false;
        }
        i += 1;
    }
    true
}

/// The kind of cell a column of a given type holds when it is not null.
#[derive(Clone, Copy, Debug, PartialEq, Eq, Structural)]
pub enum CellKind {
    Bool,
    String,
    I16,
    I32,
    I64,
    F32,
    F64,
    Numeric,
    Date,
    Time,
    TimeStamp,
    TimeStampTz,
    Uuid,
    Bytes,
}

pub open spec fn spec_kind_of_oid(oid: Oid) -> CellKind {
    if oid == BOOL_OID {
        CellKind::Bool
    } else if oid == CHAR_OID || oid == BPCHAR_OID || oid == VARCHAR_OID || oid == NAME_OID
        || oid == TEXT_OID {
        CellKind::String
    } else if oid == INT2_OID {
        CellKind::I16
    } else if oid == INT4_OID {
        CellKind::I32
    } else if oid == INT8_OID {
        CellKind::I64
    } else if oid == FLOAT4_OID {
        CellKind::F32
    } else if oid == FLOAT8_OID {
        CellKind::F64
    } else if oid == NUMERIC_OID {
        CellKind::Numeric
    } else if oid == DATE_OID {
        CellKind::Date
    } else if oid == TIME_OID {
        CellKind::Time
    } else if oid == TIMESTAMP_OID {
        CellKind::TimeStamp
    } else if oid == TIMESTAMPTZ_OID {
        CellKind::TimeStampTz
    } else if oid == UUID_OID {
        CellKind::Uuid
    } else {
        CellKind::Bytes
    }
}

/// Which cell a column of type `oid` decodes into; unknown types are bytes.
pub fn kind_of_oid(oid: Oid) -> (r: CellKind)
    ensures
        r == spec_kind_of_oid(oid),
{
    match oid {
        BOOL_OID => CellKind::Bool,
        CHAR_OID | BPCHAR_OID | VARCHAR_OID | NAME_OID | TEXT_OID => CellKind::String,
        INT2_OID => CellKind::I16,
        INT4_OID => CellKind::I32,
        INT8_OID => CellKind::I64,
        FLOAT4_OID => CellKind::F32,
        FLOAT8_OID => CellKind::F64,
        NUMERIC_OID => CellKind::Numeric,
        DATE_OID => CellKind::Date,
        TIME_OID => CellKind::Time,
        TIMESTAMP_OID => CellKind::TimeStamp,
        TIMESTAMPTZ_OID => CellKind::TimeStampTz,
        UUID_OID => CellKind::Uuid,
        _ => CellKind::Bytes,
    }
}

/// The kind of a non-null cell.
pub open spec fn spec_cell_kind(c: Cell) -> Option<CellKind> {
    match c {
        Cell::Null => None,
        Cell::Bool(_) => Some(CellKind::Bool),
        Cell::String(_) => Some(CellKind::String),
        Cell::I16(_) => Some(CellKind::I16),
        Cell::I32(_) => Some(CellKind::I32),
        Cell::I64(_) => Some(CellKind::I64),
        Cell::F32(_) => Some(CellKind::F32),
        Cell::F64(_) => Some(CellKind::F64),
        Cell::Numeric(_) => Some(CellKind::Numeric),
        Cell::Date(_) => Some(CellKind::Date),
        Cell::Time(_) => Some(CellKind::Time),
        Cell::TimeStamp(_) => Some(CellKind::TimeStamp),
        Cell::TimeStampTz(_) => Some(CellKind::TimeStampTz),
        Cell::Uuid(_) => Some(CellKind::Uuid),
        Cell::Bytes(_) => Some(CellKind::Bytes),
    }
}

pub fn cell_kind(c: &Cell) -> (r: Option<CellKind>)
    ensures
        r == spec_cell_kind(*c),
{
    match c {
        Cell::Null => None,
        Cell::Bool(_) => Some(CellKind::Bool),
        Cell::String(_) => Some(CellKind::String),
        Cell::I16(_) => Some(CellKind::I16),
        Cell::I32(_) => Some(CellKind::I32),
        Cell::I64(_) => Some(CellKind::I64),
        Cell::F32(_) => Some(CellKind::F32),
        Cell::F64(_) => Some(CellKind::F64),
        Cell::Numeric(_) => Some(CellKind::Numeric),
        Cell::Date(_) => Some(CellKind::Date),
        Cell::Time(_) => Some(CellKind::Time),
        Cell::TimeStamp(_) => Some(CellKind::TimeStamp),
        Cell::TimeStampTz(_) => Some(CellKind::TimeStampTz),
        Cell::Uuid(_) => Some(CellKind::Uuid),
        Cell::Bytes(_) => Some(CellKind::Bytes),
    }
}

/// Schema-qualified table name.
#[derive(Clone, Debug)]
pub struct TableName {
    pub schema: String,
    pub name: String,
}

/// One column: its name, upstream type, type modifier, whether it may be null
/// and whether it belongs to the replica identity.
#[derive(Clone, Debug)]
pub struct ColumnSchema {
    pub name: String,
    pub typ: Oid,
    pub modifier: i32,
    pub nullable: bool,
    pub identity: bool,
}

/// A table's identity, name and ordered columns.
#[derive(Clone, Debug)]
pub struct TableSchema {
    pub table_id: TableId,
    pub table_name: TableName,
    pub column_schemas: Vec<ColumnSchema>,
}

/// The cells of one row, aligned by position with its table's columns.
#[derive(Clone, Debug)]
pub struct TableRow {
    pub values: Vec<Cell>,
}

/// Why a row does not fit a schema.
#[derive(Clone, Copy, Debug, PartialEq, Eq, Structural)]
pub enum RowError {
    LengthMismatch,
    TypeMismatch(usize),
}

/// A cell fits a column when it is null and the column is nullable, or when it
/// is of the kind the column's type decodes into.
pub open spec fn cell_fits(c: Cell, col: ColumnSchema) -> bool {
    match spec_cell_kind(c) {
        None => col.nullable,
        Some(k) => k == spec_kind_of_oid(col.typ),
    }
}

/// Index of the first column whose cell does not fit.
pub open spec fn first_misfit(cells: Seq<Cell>, cols: Seq<ColumnSchema>, i: int) -> bool {
    &&& 0 <= i < cells.len()
    &&& !cell_fits(cells[i], cols[i])
    &&& forall|j: int| 0 <= j < i ==> cell_fits(#[trigger] cells[j], cols[j])
}

impl TableRow {
    /// Checks the row against `schema`: same number of cells as columns, and
    /// each cell fits its column.
    pub fn validate(&self, schema: &TableSchema) -> (r: Result<(), RowError>)
        ensures
            self.values@.len() != schema.column_schemas@.len() ==> r == Err::<(), RowError>(
                RowError::LengthMismatch,
            ),
            self.values@.len() == schema.column_schemas@.len() ==> match r {
                Ok(()) => forall|j: int|
                    0 <= j < self.values@.len() ==> cell_fits(
                        #[trigger] self.values@[j],
                        schema.column_schemas@[j],
                    ),
                Err(RowError::TypeMismatch(i)) => first_misfit(
                    self.values@,
                    schema.column_schemas@,
                    i as int,
                ),
                Err(RowError::LengthMismatch) => false,
            },
    {
        let n = self.values.len();
        if n != schema.column_schemas.len() {
            return Err(RowError::LengthMismatch);
        }
        let mut i: usize = 0;
        while i < n
            invariant
                n == self.values@.len(),
                n == schema.column_schemas@.len(),
                0 <= i <= n,
                forall|j: int| 0 <= j < i ==> cell_fits(#[trigger] self.values@[j], schema.column_schemas@[j]),
            decreases n - i,
        {
            let fits = match cell_kind(&self.values[i]) {
                None => schema.column_schemas[i].nullable,
                Some(k) => k == kind_of_oid(schema.column_schemas[i].typ),
            };
            if !fits {
                return Err(RowError::TypeMismatch(i));
            }
            i += 1;
        }
        Ok(())
    }
}

/// A change-data-capture event.
#[derive(Clone, Debug)]
pub enum CdcEvent {
    Begin { final_lsn: Lsn, timestamp: i64, xid: u32 },
    Commit { flags: u8, commit_lsn: Lsn, end_lsn: Lsn, timestamp: i64 },
    Relation(TableSchema),
    Insert { table_id: TableId, row: TableRow },
    Update { table_id: TableId, old_row: Option<TableRow>, new_row: TableRow },
    Delete { table_id: TableId, old_row: TableRow },
    Type { oid: Oid, namespace: String, name: String },
    Truncate { table_ids: Vec<TableId>, options: u8 },
    KeepAliveRequested { wal_end: Lsn, timestamp: i64, reply_requested: bool },
}

/// What a pipeline does: copy tables, stream changes, or both.
#[derive(Clone, Copy, Debug, PartialEq, Eq, Structural)]
pub enum PipelineAction {
    TableCopiesOnly,
    CdcOnly,
    Both,
}

} // verus!
