//! Protobuf encoding of table rows for the storage write API: cell `i` of a
//! row is field number `i + 1`; null cells are left out.
use vstd::prelude::*;
use crate::model::{Cell, Date, Time, DateTime, TableRow, cells_wf};
use crate::text::{
    spec_date_text, spec_time_text, spec_timestamp_text, spec_timestamptz_text, uuid_text_of,
    date_text, time_text, timestamp_text, timestamptz_text, uuid_text,
};
use vstd::utf8::encode_utf8;

verus! {

/// Largest protobuf field number.
pub const MAX_TAG: u32 = 536_870_911;

/// Base-128 varint, least significant group first.
pub open spec fn varint(v: nat) -> Seq<u8>
    decreases v,
{
    if v < 128 {
        seq![v as u8]
    } else {
        seq![(v % 128 + 128) as u8] + varint(v / 128)
    }
}

/// The first `n` little-endian bytes of `v`.
pub open spec fn le_bytes(v: nat, n: nat) -> Seq<u8>
    decreases n,
{
    if n == 0 {
        seq![]
    } else {
        seq![(v % 256) as u8] + le_bytes(v / 256, (n - 1) as nat)
    }
}

pub open spec fn field_key(tag: nat, wire_type: nat) -> Seq<u8> {
    varint(tag * 8 + wire_type)
}

/// A signed integer widened to 64 bits, as two's complement.
pub open spec fn as_u64_bits(i: int) -> nat {
    if i < 0 {
        (i + 0x1_0000_0000_0000_0000) as nat
    } else {
        i as nat
    }
}

pub open spec fn varint_field(tag: nat, v: nat) -> Seq<u8> {
    field_key(tag, 0) + varint(v)
}

pub open spec fn delimited_field(tag: nat, b: Seq<u8>) -> Seq<u8> {
    field_key(tag, 2) + varint(b.len()) + b
}

pub open spec fn fixed32_field(tag: nat, v: nat) -> Seq<u8> {
    field_key(tag, 5) + le_bytes(v, 4)
}

pub open spec fn fixed64_field(tag: nat, v: nat) -> Seq<u8> {
    field_key(tag, 1) + le_bytes(v, 8)
}

/// The encoding of one cell as field `tag`.
pub open spec fn cell_field(tag: nat, c: Cell) -> Seq<u8> {
    match c {
        Cell::Null => seq![],
        Cell::Bool(b) => varint_field(tag, if b { 1 } else { 0 }),
        Cell::String(s) => delimited_field(tag, encode_utf8(s@)),
        Cell::I16(i) => varint_field(tag, as_u64_bits(i as int)),
        Cell::I32(i) => varint_field(tag, as_u64_bits(i as int)),
        Cell::I64(i) => varint_field(tag, as_u64_bits(i as int)),
        Cell::F32(bits) => fixed32_field(tag, bits as nat),
        Cell::F64(bits) => fixed64_field(tag, bits as nat),
        Cell::Numeric(s) => delimited_field(tag, encode_utf8(s@)),
        Cell::Date(d) => delimited_field(tag, encode_utf8(spec_date_text(d))),
        Cell::Time(t) => delimited_field(tag, encode_utf8(spec_time_text(t))),
        Cell::TimeStamp(t) => delimited_field(tag, encode_utf8(spec_timestamp_text(t))),
        Cell::TimeStampTz(t) => delimited_field(tag, encode_utf8(spec_timestamptz_text(t))),
        Cell::Uuid(b) => delimited_field(tag, encode_utf8(uuid_text_of(b@))),
        Cell::Bytes(b) => delimited_field(tag, b@),
    }
}

/// The encoding of the first `n` cells of a row.
pub open spec fn row_encoding(cells: Seq<Cell>, n: nat) -> Seq<u8>
    decreases n,
{
    if n == 0 || n > cells.len() {
        seq![]
    } else {
        row_encoding(cells, (n - 1) as nat) + cell_field(n, cells[n - 1])
    }
}

pub open spec fn encodable(cells: Seq<Cell>) -> bool {
    &&& cells.len() < MAX_TAG
    &&& cells_wf(cells)
}

/// Relies on prost's `encoding::bool::encode`: key with wire type 0, then 0 or 1.
#[verifier::external_body]
fn encode_bool(tag: u32, v: bool, buf: &mut Vec<u8>)
    requires
        1 <= tag <= MAX_TAG,
    ensures
        final(buf)@ == old(buf)@ + varint_field(tag as nat, if v { 1 } else { 0 }),
{
    prost::encoding::bool::encode(tag, &v, buf)
}

/// Relies on prost's `encoding::int32::encode`: key with wire type 0, then the
/// value sign-extended to 64 bits as a varint.
#[verifier::external_body]
fn encode_int32(tag: u32, v: i32, buf: &mut Vec<u8>)
    requires
        1 <= tag <= MAX_TAG,
    ensures
        final(buf)@ == old(buf)@ + varint_field(tag as nat, as_u64_bits(v as int)),
{
    prost::encoding::int32::encode(tag, &v, buf)
}

/// Relies on prost's `encoding::int64::encode`: key with wire type 0, then the
/// value's 64 bits as a varint.
#[verifier::external_body]
fn encode_int64(tag: u32, v: i64, buf: &mut Vec<u8>)
    requires
        1 <= tag <= MAX_TAG,
    ensures
        final(buf)@ == old(buf)@ + varint_field(tag as nat, as_u64_bits(v as int)),
{
    prost::encoding::int64::encode(tag, &v, buf)
}

/// Relies on prost's `encoding::fixed32::encode`: key with wire type 5, then
/// four little-endian bytes (the layout of a protobuf `float`).
#[verifier::external_body]
fn encode_fixed32(tag: u32, v: u32, buf: &mut Vec<u8>)
    requires
        1 <= tag <= MAX_TAG,
    ensures
        final(buf)@ == old(buf)@ + fixed32_field(tag as nat, v as nat),
{
    prost::encoding::fixed32::encode(tag, &v, buf)
}

/// Relies on prost's `encoding::fixed64::encode`: key with wire type 1, then
/// eight little-endian bytes (the layout of a protobuf `double`).
#[verifier::external_body]
fn encode_fixed64(tag: u32, v: u64, buf: &mut Vec<u8>)
    requires
        1 <= tag <= MAX_TAG,
    ensures
        final(buf)@ == old(buf)@ + fixed64_field(tag as nat, v as nat),
{
    prost::encoding::fixed64::encode(tag, &v, buf)
}

/// Relies on prost's `encoding::string::encode`: key with wire type 2, the
/// UTF-8 length as a varint, then the UTF-8 bytes.
#[verifier::external_body]
fn encode_string(tag: u32, v: &String, buf: &mut Vec<u8>)
    requires
        1 <= tag <= MAX_TAG,
    ensures
        final(buf)@ == old(buf)@ + delimited_field(tag as nat, encode_utf8(v@)),
{
    prost::encoding::string::encode(tag, v, buf)
}

/// Relies on prost's `encoding::bytes::encode`: key with wire type 2, the
/// length as a varint, then the bytes.
#[verifier::external_body]
fn encode_bytes(tag: u32, v: &Vec<u8>, buf: &mut Vec<u8>)
    requires
        1 <= tag <= MAX_TAG,
    ensures
        final(buf)@ == old(buf)@ + delimited_field(tag as nat, v@),
{
    prost::encoding::bytes::encode(tag, v, buf)
}

/// Relies on prost's `encoding::key_len`: the length of a field key.
#[verifier::external_body]
fn key_len(tag: u32) -> (r: usize)
    requires
        1 <= tag <= MAX_TAG,
    ensures
        r == field_key(tag as nat, 0).len(),
{
    prost::encoding::key_len(tag)
}

/// Relies on prost's `encoding::encoded_len_varint`: the length of a varint.
#[verifier::external_body]
fn varint_len(v: u64) -> (r: usize)
    ensures
        r == varint(v as nat).len(),
{
    prost::encoding::encoded_len_varint(v)
}

proof fn lemma_varint_len_low_bits(v: nat, w: nat)
    requires
        v % 8 == 0,
        w < 8,
    ensures
        varint(v + w).len() == varint(v).len(),
{
    if v >= 128 {
        assert((v + w) / 128 == v / 128) by (nonlinear_arith)
            requires
                v % 8 == 0,
                w < 8,
        {
        }
        assert(varint(v + w).len() == 1 + varint((v + w) / 128).len());
    }
}

/// Length of a field key, whatever its wire type.
proof fn lemma_key_len(tag: nat, w: nat)
    requires
        w < 8,
    ensures
        field_key(tag, w).len() == field_key(tag, 0).len(),
{
    assert((tag * 8) % 8 == 0) by (nonlinear_arith);
    lemma_varint_len_low_bits(tag * 8, w);
}

proof fn lemma_le_bytes_len(v: nat, n: nat)
    ensures
        le_bytes(v, n).len() == n,
    decreases n,
{
    if n > 0 {
        lemma_le_bytes_len(v / 256, (n - 1) as nat);
    }
}

/// The 64 bits of a signed integer, read as unsigned.
fn bits_of(i: i64) -> (r: u64)
    ensures
        r as nat == as_u64_bits(i as int),
{
    if i < 0 {
        (i as i128 + 0x1_0000_0000_0000_0000i128) as u64
    } else {
        i as u64
    }
}

/// The text a temporal, decimal or uuid cell travels as.
fn cell_text(c: &Cell) -> (r: Option<String>)
    requires
        c.wf(),
    ensures
        match *c {
            Cell::Numeric(s) => r == Some(s),
            Cell::Date(d) => r.is_some() && r.unwrap()@ == spec_date_text(d),
            Cell::Time(t) => r.is_some() && r.unwrap()@ == spec_time_text(t),
            Cell::TimeStamp(t) => r.is_some() && r.unwrap()@ == spec_timestamp_text(t),
            Cell::TimeStampTz(t) => r.is_some() && r.unwrap()@ == spec_timestamptz_text(t),
            Cell::Uuid(b) => r.is_some() && r.unwrap()@ == uuid_text_of(b@),
            _ => r.is_none(),
        },
{
    match c {
        Cell::Numeric(s) => Some(s.clone()),
        Cell::Date(d) => Some(date_text(d)),
        Cell::Time(t) => Some(time_text(t)),
        Cell::TimeStamp(t) => Some(timestamp_text(t)),
        Cell::TimeStampTz(t) => Some(timestamptz_text(t)),
        Cell::Uuid(b) => Some(uuid_text(b)),
        _ => None,
    }
}

/// Appends the encoding of `cell` as field `tag`.
pub fn encode_cell(tag: u32, cell: &Cell, buf: &mut Vec<u8>)
    requires
        1 <= tag <= MAX_TAG,
        cell.wf(),
    ensures
        final(buf)@ == old(buf)@ + cell_field(tag as nat, *cell),
{
    match cell {
        Cell::Null => {
            assert(buf@ =~= old(buf)@ + cell_field(tag as nat, *cell));
        },
        Cell::Bool(b) => encode_bool(tag, *b, buf),
        Cell::String(s) => encode_string(tag, s, buf),
        Cell::I16(i) => encode_int32(tag, *i as i32, buf),
        Cell::I32(i) => encode_int32(tag, *i, buf),
        Cell::I64(i) => encode_int64(tag, *i, buf),
        Cell::F32(bits) => encode_fixed32(tag, *bits, buf),
        Cell::F64(bits) => encode_fixed64(tag, *bits, buf),
        Cell::Bytes(b) => encode_bytes(tag, b, buf),
        _ => {
            let s = cell_text(cell);
            match s {
                Some(s) => encode_string(tag, &s, buf),
                None => {},
            }
        },
    }
}

/// Length of the encoding of `cell` as field `tag`.
pub fn cell_encoded_len(tag: u32, cell: &Cell) -> (r: usize)
    requires
        1 <= tag <= MAX_TAG,
        cell.wf(),
        cell_field(tag as nat, *cell).len() <= usize::MAX,
    ensures
        r == cell_field(tag as nat, *cell).len(),
{
    proof {
        lemma_key_len(tag as nat, 2);
        lemma_key_len(tag as nat, 5);
        lemma_key_len(tag as nat, 1);
    }
    match cell {
        Cell::Null => 0,
        Cell::Bool(b) => key_len(tag) + varint_len(if *b { 1 } else { 0 }),
        Cell::I16(i) => key_len(tag) + varint_len(bits_of(*i as i64)),
        Cell::I32(i) => key_len(tag) + varint_len(bits_of(*i as i64)),
        Cell::I64(i) => key_len(tag) + varint_len(bits_of(*i)),
        Cell::F32(bits) => {
            proof {
                lemma_le_bytes_len(*bits as nat, 4);
            }
            key_len(tag) + 4
        },
        Cell::F64(bits) => {
            proof {
                lemma_le_bytes_len(*bits as nat, 8);
            }
            key_len(tag) + 8
        },
        Cell::String(s) => {
            let n = s.as_str().len();
            key_len(tag) + varint_len(n as u64) + n
        },
        Cell::Bytes(b) => key_len(tag) + varint_len(b.len() as u64) + b.len(),
        _ => {
            let s = cell_text(cell);
            match s {
                Some(s) => {
                    let n = s.as_str().len();
                    key_len(tag) + varint_len(n as u64) + n
                },
                None => 0,
            }
        },
    }
}

proof fn lemma_row_encoding_grows(cells: Seq<Cell>, i: nat, n: nat)
    requires
        i <= n <= cells.len(),
    ensures
        row_encoding(cells, i).len() <= row_encoding(cells, n).len(),
    decreases n,
{
    if i < n {
        lemma_row_encoding_grows(cells, i, (n - 1) as nat);
    }
}

impl TableRow {
    /// Appends the protobuf encoding of the row.
    pub fn encode_raw(&self, buf: &mut Vec<u8>)
        requires
            encodable(self.values@),
        ensures
            final(buf)@ == old(buf)@ + row_encoding(self.values@, self.values@.len()),
    {
        let n = self.values.len();
        let mut i: usize = 0;
        while i < n
            invariant
                n == self.values@.len(),
                encodable(self.values@),
                0 <= i <= n,
                buf@ == old(buf)@ + row_encoding(self.values@, i as nat),
            decreases n - i,
        {
            encode_cell((i + 1) as u32, &self.values[i], buf);
            assert(buf@ =~= old(buf)@ + row_encoding(self.values@, (i + 1) as nat));
            i += 1;
        }
    }

    /// Length of the row's protobuf encoding.
    pub fn encoded_len(&self) -> (r: usize)
        requires
            encodable(self.values@),
            row_encoding(self.values@, self.values@.len()).len() <= usize::MAX,
        ensures
            r == row_encoding(self.values@, self.values@.len()).len(),
    {
        let n = self.values.len();
        let mut len: usize = 0;
        let mut i: usize = 0;
        while i < n
            invariant
                n == self.values@.len(),
                encodable(self.values@),
                row_encoding(self.values@, n as nat).len() <= usize::MAX,
                0 <= i <= n,
                len == row_encoding(self.values@, i as nat).len(),
            decreases n - i,
        {
            proof {
                lemma_row_encoding_grows(self.values@, (i + 1) as nat, n as nat);
            }
            let l = cell_encoded_len((i + 1) as u32, &self.values[i]);
            len = len + l;
            i += 1;
        }
        len
    }
}

/// `new` is `old` reset to its kind's default: false, empty, zero, the Unix
/// epoch, the nil UUID; null stays null.
pub open spec fn is_cleared(old: Cell, new: Cell) -> bool {
    match old {
        Cell::Null => new is Null,
        Cell::Bool(_) => new == Cell::Bool(false),
        Cell::String(_) => new matches Cell::String(s) && s@.len() == 0,
        Cell::I16(_) => new == Cell::I16(0),
        Cell::I32(_) => new == Cell::I32(0),
        Cell::I64(_) => new == Cell::I64(0),
        Cell::F32(_) => new == Cell::F32(0),
        Cell::F64(_) => new == Cell::F64(0),
        Cell::Numeric(_) => new matches Cell::Numeric(s) && s@ == "0"@,
        Cell::Date(_) => new == Cell::Date(epoch_date()),
        Cell::Time(_) => new == Cell::Time(midnight()),
        Cell::TimeStamp(_) => new == Cell::TimeStamp(DateTime { date: epoch_date(), time: midnight() }),
        Cell::TimeStampTz(_) => new == Cell::TimeStampTz(DateTime { date: epoch_date(), time: midnight() }),
        Cell::Uuid(_) => new matches Cell::Uuid(b) && forall|i: int| 0 <= i < 16 ==> b@[i] == 0,
        Cell::Bytes(_) => new matches Cell::Bytes(b) && b@.len() == 0,
    }
}

pub open spec fn epoch_date() -> Date {
    Date { year: 1970, month: 1, day: 1 }
}

pub open spec fn midnight() -> Time {
    Time { hour: 0, minute: 0, second: 0, micro: 0 }
}

fn cleared(c: &Cell) -> (r: Cell)
    ensures
        is_cleared(*c, r),
        r.wf(),
{
    let date = Date { year: 1970, month: 1, day: 1 };
    let time = Time { hour: 0, minute: 0, second: 0, micro: 0 };
    match c {
        Cell::Null => Cell::Null,
        Cell::Bool(_) => Cell::Bool(false),
        Cell::String(_) => Cell::String(String::new()),
        Cell::I16(_) => Cell::I16(0),
        Cell::I32(_) => Cell::I32(0),
        Cell::I64(_) => Cell::I64(0),
        Cell::F32(_) => Cell::F32(0),
        Cell::F64(_) => Cell::F64(0),
        Cell::Numeric(_) => Cell::Numeric(String::from_str("0")),
        Cell::Date(_) => Cell::Date(date),
        Cell::Time(_) => Cell::Time(time),
        Cell::TimeStamp(_) => Cell::TimeStamp(DateTime { date, time }),
        Cell::TimeStampTz(_) => Cell::TimeStampTz(DateTime { date, time }),
        Cell::Uuid(_) => {
            let b = [0u8; 16];
            assert(forall|i: int| 0 <= i < 16 ==> b@[i] == 0);
            Cell::Uuid(b)
        },
        Cell::Bytes(_) => Cell::Bytes(Vec::new()),
    }
}

impl TableRow {
    /// Resets every cell to its kind's default, keeping the row's shape.
    pub fn clear(&mut self)
        ensures
            final(self).values@.len() == old(self).values@.len(),
            forall|i: int|
                0 <= i < old(self).values@.len() ==> is_cleared(
                    #[trigger] old(self).values@[i],
                    final(self).values@[i],
                ),
    {
        let n = self.values.len();
        let mut i: usize = 0;
        while i < n
            invariant
                n == self.values@.len(),
                n == old(self).values@.len(),
                0 <= i <= n,
                forall|j: int|
                    0 <= j < i ==> is_cleared(#[trigger] old(self).values@[j], self.values@[j]),
                forall|j: int| i <= j < n ==> #[trigger] self.values@[j] == old(self).values@[j],
            decreases n - i,
        {
            let c = cleared(&self.values[i]);
            self.values.set(i, c);
            i += 1;
        }
    }
}

} // verus!
