//! How upstream column types map onto BigQuery column types, for table
//! definitions and for the storage write API's row descriptors.
use vstd::prelude::*;
use crate::model::{
    Oid, TableSchema, ColumnSchema, BOOL_OID, BYTEA_OID, CHAR_OID, NAME_OID, INT8_OID, INT2_OID,
    INT4_OID, TEXT_OID, FLOAT4_OID, FLOAT8_OID, BPCHAR_OID, VARCHAR_OID, DATE_OID, TIME_OID,
    TIMESTAMP_OID, TIMESTAMPTZ_OID, NUMERIC_OID, UUID_OID,
};

verus! {

/// A BigQuery column type as written in a table definition.
#[derive(Clone, Copy, Debug, PartialEq, Eq, Structural)]
pub enum BigQueryType {
    Bool,
    String,
    Int64,
    Float64,
    BigNumeric,
    Date,
    Time,
    Timestamp,
    Bytes,
}

pub open spec fn spec_bigquery_type(oid: Oid) -> BigQueryType {
    if oid == BOOL_OID {
        BigQueryType::Bool
    } else if oid == CHAR_OID || oid == BPCHAR_OID || oid == VARCHAR_OID || oid == NAME_OID
        || oid == TEXT_OID || oid == UUID_OID {
        BigQueryType::String
    } else if oid == INT2_OID || oid == INT4_OID || oid == INT8_OID {
        BigQueryType::Int64
    } else if oid == FLOAT4_OID || oid == FLOAT8_OID {
        BigQueryType::Float64
    } else if oid == NUMERIC_OID {
        BigQueryType::BigNumeric
    } else if oid == DATE_OID {
        BigQueryType::Date
    } else if oid == TIME_OID {
        BigQueryType::Time
    } else if oid == TIMESTAMP_OID || oid == TIMESTAMPTZ_OID {
        BigQueryType::Timestamp
    } else {
        BigQueryType::Bytes
    }
}

/// The BigQuery column type for an upstream type; unknown types become bytes.
pub fn postgres_type_to_bigquery_type(oid: Oid) -> (r: BigQueryType)
    ensures
        r == spec_bigquery_type(oid),
{
    match oid {
        BOOL_OID => BigQueryType::Bool,
        CHAR_OID | BPCHAR_OID | VARCHAR_OID | NAME_OID | TEXT_OID => BigQueryType::String,
        INT2_OID | INT4_OID | INT8_OID => BigQueryType::Int64,
        FLOAT4_OID | FLOAT8_OID => BigQueryType::Float64,
        NUMERIC_OID => BigQueryType::BigNumeric,
        DATE_OID => BigQueryType::Date,
        TIME_OID => BigQueryType::Time,
        TIMESTAMP_OID | TIMESTAMPTZ_OID => BigQueryType::Timestamp,
        UUID_OID => BigQueryType::String,
        _ => BigQueryType::Bytes,
    }
}

pub open spec fn spec_type_name(t: BigQueryType) -> Seq<char> {
    match t {
        BigQueryType::Bool => "bool"@,
        BigQueryType::String => "string"@,
        BigQueryType::Int64 => "int64"@,
        BigQueryType::Float64 => "float64"@,
        BigQueryType::BigNumeric => "bignumeric"@,
        BigQueryType::Date => "date"@,
        BigQueryType::Time => "time"@,
        BigQueryType::Timestamp => "timestamp"@,
        BigQueryType::Bytes => "bytes"@,
    }
}

impl BigQueryType {
    /// The type's name in a table definition.
    pub fn name(&self) -> (r: &'static str)
        ensures
            r@ == spec_type_name(*self),
    {
        match self {
            BigQueryType::Bool => "bool",
            BigQueryType::String => "string",
            BigQueryType::Int64 => "int64",
            BigQueryType::Float64 => "float64",
            BigQueryType::BigNumeric => "bignumeric",
            BigQueryType::Date => "date",
            BigQueryType::Time => "time",
            BigQueryType::Timestamp => "timestamp",
            BigQueryType::Bytes => "bytes",
        }
    }
}

pub open spec fn spec_upstream_type_of(t: BigQueryType) -> Oid {
    match t {
        BigQueryType::Bool => BOOL_OID,
        BigQueryType::String => TEXT_OID,
        BigQueryType::Int64 => INT8_OID,
        BigQueryType::Float64 => FLOAT8_OID,
        BigQueryType::BigNumeric => NUMERIC_OID,
        BigQueryType::Date => DATE_OID,
        BigQueryType::Time => TIME_OID,
        BigQueryType::Timestamp => TIMESTAMPTZ_OID,
        BigQueryType::Bytes => BYTEA_OID,
    }
}

/// Reads a BigQuery column back as an upstream column type: the widest
/// upstream type that maps onto it.
pub fn upstream_type_of(t: BigQueryType) -> (r: Oid)
    ensures
        r == spec_upstream_type_of(t),
{
    match t {
        BigQueryType::Bool => BOOL_OID,
        BigQueryType::String => TEXT_OID,
        BigQueryType::Int64 => INT8_OID,
        BigQueryType::Float64 => FLOAT8_OID,
        BigQueryType::BigNumeric => NUMERIC_OID,
        BigQueryType::Date => DATE_OID,
        BigQueryType::Time => TIME_OID,
        BigQueryType::Timestamp => TIMESTAMPTZ_OID,
        BigQueryType::Bytes => BYTEA_OID,
    }
}

/// Mapping a column onto a BigQuery type, reading that back as an upstream
/// column and mapping it again gives the same BigQuery type.
pub proof fn lemma_sink_type_round_trip(col: ColumnSchema)
    ensures
        spec_bigquery_type(spec_upstream_type_of(spec_bigquery_type(col.typ)))
            == spec_bigquery_type(col.typ),
{
}

/// Column types of the storage write API's protobuf row descriptors.
#[derive(Clone, Copy, Debug, PartialEq, Eq, Structural)]
pub enum ColumnType {
    Bool,
    String,
    Int64,
    Float32,
    Float64,
    Bytes,
}

pub open spec fn spec_column_type(oid: Oid) -> ColumnType {
    if oid == BOOL_OID {
        ColumnType::Bool
    } else if oid == INT2_OID || oid == INT4_OID || oid == INT8_OID {
        ColumnType::Int64
    } else if oid == FLOAT4_OID {
        ColumnType::Float32
    } else if oid == FLOAT8_OID {
        ColumnType::Float64
    } else if oid == CHAR_OID || oid == BPCHAR_OID || oid == VARCHAR_OID || oid == NAME_OID
        || oid == TEXT_OID || oid == NUMERIC_OID || oid == DATE_OID || oid == TIME_OID
        || oid == TIMESTAMP_OID || oid == TIMESTAMPTZ_OID || oid == UUID_OID {
        ColumnType::String
    } else {
        ColumnType::Bytes
    }
}

/// The descriptor column type for an upstream type: temporal, decimal and
/// uuid values travel as their text.
pub fn column_type(oid: Oid) -> (r: ColumnType)
    ensures
        r == spec_column_type(oid),
{
    match oid {
        BOOL_OID => ColumnType::Bool,
        CHAR_OID | BPCHAR_OID | VARCHAR_OID | NAME_OID | TEXT_OID => ColumnType::String,
        INT2_OID | INT4_OID | INT8_OID => ColumnType::Int64,
        FLOAT4_OID => ColumnType::Float32,
        FLOAT8_OID => ColumnType::Float64,
        NUMERIC_OID | DATE_OID | TIME_OID | TIMESTAMP_OID | TIMESTAMPTZ_OID | UUID_OID => {
            ColumnType::String
        },
        _ => ColumnType::Bytes,
    }
}

/// One field of a row descriptor: its protobuf field number, name and type.
#[derive(Clone, Debug)]
pub struct FieldDescriptor {
    pub number: u32,
    pub name: String,
    pub typ: ColumnType,
}

/// The protobuf layout of the rows streamed into one table.
#[derive(Clone, Debug)]
pub struct TableDescriptor {
    pub field_descriptors: Vec<FieldDescriptor>,
}

pub open spec fn change_type_column_name() -> Seq<char> {
    "_CHANGE_TYPE"@
}

/// The fields of a descriptor as (number, name, type).
pub open spec fn descriptor_view(d: TableDescriptor) -> Seq<(nat, Seq<char>, ColumnType)> {
    Seq::new(
        d.field_descriptors@.len(),
        |i: int|
            (
                d.field_descriptors@[i].number as nat,
                d.field_descriptors@[i].name@,
                d.field_descriptors@[i].typ,
            ),
    )
}

/// The fields `from_schema` gives for columns `cols`.
pub open spec fn schema_fields(cols: Seq<ColumnSchema>) -> Seq<(nat, Seq<char>, ColumnType)> {
    Seq::new(
        cols.len() + 1,
        |i: int|
            if i < cols.len() {
                ((i + 1) as nat, cols[i].name@, spec_column_type(cols[i].typ))
            } else {
                ((i + 1) as nat, change_type_column_name(), ColumnType::String)
            },
    )
}

/// A bulletin that adds column `c` to a table gives a descriptor with the old
/// columns' fields unchanged, `c`'s field next and the change-type field last;
/// the two descriptors differ, so a sink sees two schemas in turn.
pub proof fn lemma_added_column_fields(cols: Seq<ColumnSchema>, c: ColumnSchema)
    ensures
        schema_fields(cols.push(c)) == schema_fields(cols).subrange(0, cols.len() as int).push(
            ((cols.len() + 1) as nat, c.name@, spec_column_type(c.typ)),
        ).push(((cols.len() + 2) as nat, change_type_column_name(), ColumnType::String)),
        schema_fields(cols.push(c)) != schema_fields(cols),
{
    let a = schema_fields(cols.push(c));
    let b = schema_fields(cols).subrange(0, cols.len() as int).push(
        ((cols.len() + 1) as nat, c.name@, spec_column_type(c.typ)),
    ).push(((cols.len() + 2) as nat, change_type_column_name(), ColumnType::String));
    assert(a =~= b);
    assert(a.len() != schema_fields(cols).len());
}

impl TableDescriptor {
    /// One field per column, numbered from 1 in column order, followed by the
    /// `_CHANGE_TYPE` string field.
    pub fn from_schema(value: &TableSchema) -> (r: TableDescriptor)
        requires
            value.column_schemas@.len() < u32::MAX,
        ensures
            descriptor_view(r) == schema_fields(value.column_schemas@),
            r.field_descriptors@.len() == value.column_schemas@.len() + 1,
            forall|i: int|
                0 <= i < value.column_schemas@.len() ==> {
                    let f = #[trigger] r.field_descriptors@[i];
                    let c = value.column_schemas@[i];
                    f.number == i + 1 && f.name@ == c.name@ && f.typ == spec_column_type(c.typ)
                },
            ({
                let n = value.column_schemas@.len() as int;
                let f = r.field_descriptors@[n];
                f.number == n + 1 && f.name@ == change_type_column_name() && f.typ
                    == ColumnType::String
            }),
    {
        let n = value.column_schemas.len();
        let mut field_descriptors: Vec<FieldDescriptor> = Vec::with_capacity(n + 1);
        let mut i: usize = 0;
        while i < n
            invariant
                n == value.column_schemas@.len(),
                n < u32::MAX,
                0 <= i <= n,
                field_descriptors@.len() == i,
                forall|j: int|
                    0 <= j < i ==> {
                        let f = #[trigger] field_descriptors@[j];
                        let c = value.column_schemas@[j];
                        f.number == j + 1 && f.name@ == c.name@ && f.typ == spec_column_type(c.typ)
                    },
            decreases n - i,
        {
            let column_schema = &value.column_schemas[i];
            field_descriptors.push(
                FieldDescriptor {
                    number: (i + 1) as u32,
                    name: column_schema.name.clone(),
                    typ: column_type(column_schema.typ),
                },
            );
            i += 1;
        }
        field_descriptors.push(
            FieldDescriptor {
                number: (n + 1) as u32,
                name: String::from_str("_CHANGE_TYPE"),
                typ: ColumnType::String,
            },
        );
        let r = TableDescriptor { field_descriptors };
        assert(descriptor_view(r) =~= schema_fields(value.column_schemas@));
        r
    }
}

} // verus!
