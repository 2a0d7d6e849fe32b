//! Decoding of column values sent in binary format, by upstream type.
use vstd::prelude::*;
use vstd::utf8::{encode_utf8, valid_utf8};
use crate::model::{
    Cell, Date, DateTime, Oid, Time, BOOL_OID, BYTEA_OID, CHAR_OID, NAME_OID, INT8_OID, INT2_OID, INT4_OID,
    TEXT_OID, FLOAT4_OID, FLOAT8_OID, BPCHAR_OID, VARCHAR_OID, DATE_OID, TIME_OID, TIMESTAMP_OID,
    TIMESTAMPTZ_OID, NUMERIC_OID, UUID_OID,
};
use crate::wire::{be, field, signed64, pow256, read_be, lemma_field_bound};
use crate::text::{digit_char, nat_text, push_char, push_nat, push_str};

verus! {

/// Why a column value could not be decoded.
#[derive(Clone, Copy, Debug, PartialEq, Eq, Structural)]
pub enum ValueError {
    /// The value's length does not fit its type.
    BadLength,
    /// Text that is not UTF-8.
    BadUtf8,
    /// A time of day outside `[00:00, 24:00)`, or a date outside the
    /// supported years.
    OutOfRange,
    /// A numeric with a bad header or a digit above 9999.
    BadNumeric,
}

/// Relies on std's `String::from_utf8`: succeeds exactly on valid UTF-8, and
/// then holds the characters those bytes encode.
#[verifier::external_body]
pub(crate) fn utf8_string(b: Vec<u8>) -> (r: Option<String>)
    ensures
        r is Some <==> valid_utf8(b@),
        r matches Some(s) ==> encode_utf8(s@) == b@,
{
    String::from_utf8(b).ok()
}

/// The day number of a proleptic Gregorian date, counted with 0001-01-01 as
/// day 1 (chrono's `num_days_from_ce`).
pub open spec fn ce_days_of(year: int, month: int, day: int) -> int {
    let y = if month <= 2 {
        year - 1
    } else {
        year
    };
    let era = y / 400;
    let yoe = y - era * 400;
    let mp = if month > 2 {
        month - 3
    } else {
        month + 9
    };
    let doy = (153 * mp + 2) / 5 + day - 1;
    let doe = yoe * 365 + yoe / 4 - yoe / 100 + doy;
    era * 146097 + doe - 305
}

/// Day numbers of chrono's first and last dates, -262143-01-01 and
/// 262142-12-31, counted with 0001-01-01 as day 1.
pub const MIN_CE_DAYS: i32 = -95_746_129;
pub const MAX_CE_DAYS: i32 = 95_745_399;

pub open spec fn ce_days_in_range(d: int) -> bool {
    MIN_CE_DAYS <= d <= MAX_CE_DAYS
}

/// Relies on chrono's `NaiveDate::from_num_days_from_ce_opt` (day 1 is
/// 0001-01-01) and its year, month and day: `Some` exactly for day numbers
/// from `NaiveDate::MIN` to `NaiveDate::MAX`, and then the valid date whose
/// day number it is.
#[verifier::external_body]
fn date_from_days(days_from_ce: i32) -> (r: Option<Date>)
    ensures
        r is Some <==> ce_days_in_range(days_from_ce as int),
        r matches Some(d) ==> d.wf() && ce_days_of(d.year as int, d.month as int, d.day as int)
            == days_from_ce as int,
{
    chrono::NaiveDate::from_num_days_from_ce_opt(days_from_ce).map(
        |d| Date {
            year: chrono::Datelike::year(&d),
            month: chrono::Datelike::month(&d),
            day: chrono::Datelike::day(&d),
        },
    )
}

/// Day number, counted from 0001-01-01 as day 1, of 2000-01-01: the epoch of
/// upstream dates and timestamps.
pub const UPSTREAM_EPOCH_DAYS: i32 = 730_120;

pub open spec fn micros_per_day() -> int {
    86_400_000_000
}

/// `d` is the date `days` days after 2000-01-01.
pub open spec fn date_ok(days: int, d: Date) -> bool {
    &&& d.wf()
    &&& ce_days_of(d.year as int, d.month as int, d.day as int) == days + UPSTREAM_EPOCH_DAYS
}

/// `t` is the moment `micros` microseconds after 2000-01-01 00:00.
pub open spec fn timestamp_ok(micros: int, t: DateTime) -> bool {
    &&& date_ok(micros / micros_per_day(), t.date)
    &&& t.time == time_of_micros(micros % micros_per_day())
}

fn date_after_epoch(days: i64) -> (r: Option<Date>)
    ensures
        r is Some <==> ce_days_in_range(days as int + UPSTREAM_EPOCH_DAYS),
        r matches Some(d) ==> date_ok(days as int, d),
{
    if days < -2_000_000_000 || days > 2_000_000_000 {
        return None;
    }
    date_from_days((days + UPSTREAM_EPOCH_DAYS as i64) as i32)
}

fn timestamp_after_epoch(micros: i64) -> (r: Option<DateTime>)
    ensures
        r is Some <==> ce_days_in_range(micros as int / micros_per_day() + UPSTREAM_EPOCH_DAYS),
        r matches Some(t) ==> timestamp_ok(micros as int, t) && t.wf(),
{
    let days = micros / 86_400_000_000 - if micros % 86_400_000_000 < 0 { 1 } else { 0 };
    let rem = (micros as i128 - days as i128 * 86_400_000_000i128) as i64;
    assert(days == micros as int / micros_per_day());
    assert(rem == micros as int % micros_per_day());
    match date_after_epoch(days) {
        Some(date) => {
            let time = Time {
                hour: (rem / 3_600_000_000) as u32,
                minute: ((rem / 60_000_000) % 60) as u32,
                second: ((rem / 1_000_000) % 60) as u32,
                micro: (rem % 1_000_000) as u32,
            };
            Some(DateTime { date, time })
        },
        None => None,
    }
}

pub open spec fn signed(v: nat, bits: nat) -> int {
    if bits == 16 {
        if v >= 0x8000 { v - 0x1_0000 } else { v as int }
    } else if bits == 32 {
        if v >= 0x8000_0000 { v - 0x1_0000_0000 } else { v as int }
    } else {
        signed64(v)
    }
}

pub open spec fn is_text_oid(oid: Oid) -> bool {
    oid == CHAR_OID || oid == BPCHAR_OID || oid == VARCHAR_OID || oid == NAME_OID || oid == TEXT_OID
}

pub open spec fn is_temporal_oid(oid: Oid) -> bool {
    oid == DATE_OID || oid == TIMESTAMP_OID || oid == TIMESTAMPTZ_OID
}

/// The fixed length of a type's binary value, or 0 when it has none.
pub open spec fn fixed_len(oid: Oid) -> nat {
    if oid == BOOL_OID {
        1
    } else if oid == INT2_OID {
        2
    } else if oid == INT4_OID || oid == FLOAT4_OID || oid == DATE_OID {
        4
    } else if oid == INT8_OID || oid == FLOAT8_OID || oid == TIME_OID || oid == TIMESTAMP_OID
        || oid == TIMESTAMPTZ_OID {
        8
    } else if oid == UUID_OID {
        16
    } else {
        0
    }
}

/// The time of day `micros` microseconds after midnight.
pub open spec fn time_of_micros(micros: int) -> Time {
    Time {
        hour: (micros / 3_600_000_000) as u32,
        minute: ((micros / 60_000_000) % 60) as u32,
        second: ((micros / 1_000_000) % 60) as u32,
        micro: (micros % 1_000_000) as u32,
    }
}

/// What the binary value `b` of a column of type `oid` decodes into.
pub open spec fn binary_cell_ok(oid: Oid, b: Seq<u8>, c: Cell) -> bool {
    if oid == BOOL_OID {
        c == Cell::Bool(b[0] != 0)
    } else if oid == INT2_OID {
        c == Cell::I16(signed(be(b), 16) as i16)
    } else if oid == INT4_OID {
        c == Cell::I32(signed(be(b), 32) as i32)
    } else if oid == INT8_OID {
        c == Cell::I64(signed(be(b), 64) as i64)
    } else if oid == FLOAT4_OID {
        c == Cell::F32(be(b) as u32)
    } else if oid == FLOAT8_OID {
        c == Cell::F64(be(b) as u64)
    } else if oid == TIME_OID {
        c == Cell::Time(time_of_micros(signed(be(b), 64)))
    } else if oid == DATE_OID {
        c matches Cell::Date(d) && date_ok(signed(be(b), 32), d)
    } else if oid == TIMESTAMP_OID {
        c matches Cell::TimeStamp(t) && timestamp_ok(signed(be(b), 64), t)
    } else if oid == TIMESTAMPTZ_OID {
        c matches Cell::TimeStampTz(t) && timestamp_ok(signed(be(b), 64), t)
    } else if oid == UUID_OID {
        c matches Cell::Uuid(u) && u@ == b
    } else if is_text_oid(oid) {
        c matches Cell::String(s) && encode_utf8(s@) == b
    } else if oid == NUMERIC_OID {
        c matches Cell::Numeric(s) && s@ == numeric_text(b)
    } else {
        c matches Cell::Bytes(v) && v@ == b
    }
}

pub open spec fn num_ndigits(b: Seq<u8>) -> nat {
    field(b, 0, 2)
}

pub open spec fn num_weight(b: Seq<u8>) -> int {
    signed(field(b, 2, 2), 16)
}

pub open spec fn num_sign(b: Seq<u8>) -> nat {
    field(b, 4, 2)
}

pub open spec fn num_dscale(b: Seq<u8>) -> nat {
    field(b, 6, 2)
}

/// Base-10000 digit `i` of a numeric, most significant first; zero outside
/// the digits sent.
pub open spec fn num_digit(b: Seq<u8>, i: int) -> nat {
    if 0 <= i < num_ndigits(b) {
        field(b, 8 + 2 * i, 2)
    } else {
        0
    }
}

/// A numeric's header and digits are well formed: positive, negative or NaN,
/// and every digit below 10000.
pub open spec fn numeric_fine(b: Seq<u8>) -> bool {
    &&& b.len() >= 8
    &&& b.len() == 8 + 2 * num_ndigits(b)
    &&& (num_sign(b) == 0 || num_sign(b) == 0x4000 || num_sign(b) == 0xC000)
    &&& forall|i: int| 0 <= i < num_ndigits(b) ==> #[trigger] num_digit(b, i) < 10000
}

/// Decimal digit `r` (0 to 3) of a base-10000 digit written with four places.
pub open spec fn pad4_char(d: nat, r: int) -> char {
    digit_char(
        if r == 0 {
            d / 1000
        } else if r == 1 {
            (d / 100) % 10
        } else if r == 2 {
            (d / 10) % 10
        } else {
            d % 10
        },
    )
}

/// The decimal text of a numeric: `NaN`, or an optional `-`, the integer
/// part (`0` when it is empty) and, when the display scale is positive, a
/// point and exactly that many fraction digits.
pub open spec fn numeric_text(b: Seq<u8>) -> Seq<char> {
    let w = num_weight(b);
    if num_sign(b) == 0xC000 {
        "NaN"@
    } else {
        (if num_sign(b) == 0x4000 {
            seq!['-']
        } else {
            seq![]
        }) + (if w < 0 {
            seq!['0']
        } else {
            nat_text(num_digit(b, 0)) + Seq::new(
                (4 * w) as nat,
                |k: int| pad4_char(num_digit(b, 1 + k / 4), k % 4),
            )
        }) + (if num_dscale(b) == 0 {
            seq![]
        } else {
            seq!['.'] + Seq::new(
                num_dscale(b),
                |k: int| pad4_char(num_digit(b, w + 1 + k / 4), k % 4),
            )
        })
    }
}

/// Whether the binary value `b` of a column of type `oid` decodes.
pub open spec fn binary_decodes(oid: Oid, b: Seq<u8>) -> bool {
    if oid == NUMERIC_OID {
        numeric_fine(b)
    } else if fixed_len(oid) != 0 && b.len() != fixed_len(oid) {
        false
    } else if oid == TIME_OID {
        0 <= signed(be(b), 64) < micros_per_day()
    } else if oid == DATE_OID {
        ce_days_in_range(signed(be(b), 32) + UPSTREAM_EPOCH_DAYS)
    } else if oid == TIMESTAMP_OID || oid == TIMESTAMPTZ_OID {
        ce_days_in_range(signed(be(b), 64) / micros_per_day() + UPSTREAM_EPOCH_DAYS)
    } else if is_text_oid(oid) {
        valid_utf8(b)
    } else {
        true
    }
}

fn num_digit_at(b: &Vec<u8>, nd: u64, i: i64) -> (r: u64)
    requires
        b@.len() >= 8,
        nd == num_ndigits(b@),
        nd < 0x1_0000,
        b@.len() == 8 + 2 * nd,
        forall|j: int| 0 <= j < nd ==> #[trigger] num_digit(b@, j) < 10000,
    ensures
        r == num_digit(b@, i as int),
        r < 10000,
{
    if 0 <= i && (i as u64) < nd {
        let r = read_be(b.as_slice(), 8 + 2 * (i as usize), 2);
        assert(num_digit(b@, i as int) < 10000);
        r
    } else {
        0
    }
}

fn pad4_digit(d: u64, r: u64) -> (c: char)
    requires
        d < 10000,
        r < 4,
    ensures
        c == pad4_char(d as nat, r as int),
{
    let x = if r == 0 {
        d / 1000
    } else if r == 1 {
        (d / 100) % 10
    } else if r == 2 {
        (d / 10) % 10
    } else {
        d % 10
    };
    crate::text::digit(x)
}

/// The decimal text of a binary numeric; `None` when it is not well formed.
fn numeric_string(b: &Vec<u8>) -> (r: Option<String>)
    ensures
        r is Some <==> numeric_fine(b@),
        r matches Some(s) ==> s@ == numeric_text(b@),
{
    let len = b.len();
    if len < 8 {
        return None;
    }
    let nd = read_be(b.as_slice(), 0, 2);
    proof {
        lemma_field_bound(b@, 0, 2);
        reveal_with_fuel(pow256, 3);
    }
    if len as u64 != 8 + 2 * nd {
        return None;
    }
    let wraw = read_be(b.as_slice(), 2, 2);
    let sign = read_be(b.as_slice(), 4, 2);
    let dscale = read_be(b.as_slice(), 6, 2);
    proof {
        lemma_field_bound(b@, 2, 2);
        lemma_field_bound(b@, 6, 2);
        reveal_with_fuel(pow256, 3);
    }
    if sign != 0 && sign != 0x4000 && sign != 0xC000 {
        return None;
    }
    let mut i: u64 = 0;
    while i < nd
        invariant
            len == b@.len(),
            len == 8 + 2 * nd,
            nd == num_ndigits(b@),
            nd < 0x1_0000,
            0 <= i <= nd,
            forall|j: int| 0 <= j < i ==> #[trigger] num_digit(b@, j) < 10000,
        decreases nd - i,
    {
        let d = read_be(b.as_slice(), (8 + 2 * i) as usize, 2);
        if d >= 10000 {
            assert(num_digit(b@, i as int) >= 10000);
            return None;
        }
        i += 1;
    }
    let mut s = String::new();
    if sign == 0xC000 {
        push_str(&mut s, "NaN");
        return Some(s);
    }
    let w: i64 = if wraw >= 0x8000 { wraw as i64 - 0x1_0000 } else { wraw as i64 };
    if sign == 0x4000 {
        push_char(&mut s, '-');
    }
    let ghost sign_part = s@;
    if w < 0 {
        push_char(&mut s, '0');
    } else {
        push_nat(&mut s, num_digit_at(b, nd, 0));
        let ghost start = s@;
        let total: i64 = 4 * w;
        let mut k: i64 = 0;
        while k < total
            invariant
                b@.len() >= 8,
                nd == num_ndigits(b@),
                nd < 0x1_0000,
                b@.len() == 8 + 2 * nd,
                forall|j: int| 0 <= j < nd ==> #[trigger] num_digit(b@, j) < 10000,
                0 <= k <= total,
                total == 4 * w,
                s@ == start + Seq::new(k as nat, |m: int| pad4_char(num_digit(b@, 1 + m / 4), m % 4)),
            decreases total - k,
        {
            let d = num_digit_at(b, nd, 1 + k / 4);
            push_char(&mut s, pad4_digit(d, (k % 4) as u64));
            assert(s@ =~= start + Seq::new((k + 1) as nat, |m: int| pad4_char(num_digit(b@, 1 + m / 4), m % 4)));
            k += 1;
        }
    }
    let ghost int_part = s@;
    if dscale > 0 {
        push_char(&mut s, '.');
        let ghost start = s@;
        let mut k: i64 = 0;
        while k < dscale as i64
            invariant
                b@.len() >= 8,
                nd == num_ndigits(b@),
                nd < 0x1_0000,
                b@.len() == 8 + 2 * nd,
                forall|j: int| 0 <= j < nd ==> #[trigger] num_digit(b@, j) < 10000,
                0 <= k <= dscale,
                dscale < 0x1_0000,
                -0x8000 <= w < 0x8000,
                s@ == start + Seq::new(k as nat, |m: int| pad4_char(num_digit(b@, w + 1 + m / 4), m % 4)),
            decreases dscale - k,
        {
            let d = num_digit_at(b, nd, w + 1 + k / 4);
            push_char(&mut s, pad4_digit(d, (k % 4) as u64));
            assert(s@ =~= start + Seq::new((k + 1) as nat, |m: int| pad4_char(num_digit(b@, w + 1 + m / 4), m % 4)));
            k += 1;
        }
    }
    assert(s@ =~= numeric_text(b@));
    Some(s)
}

fn read_be_vec(b: &Vec<u8>) -> (r: u64)
    requires
        b@.len() <= 8,
    ensures
        r == be(b@),
        r < pow256(b@.len()),
{
    let r = read_be(b.as_slice(), 0, b.len());
    proof {
        assert(b@.subrange(0, b@.len() as int) =~= b@);
        lemma_field_bound(b@, 0, b@.len());
    }
    r
}

/// Decodes the binary value `b` of a column of type `oid`. Text types must be
/// UTF-8; dates and timestamps count from 2000-01-01 and must lie in the
/// supported years; numerics become their decimal text; bytea and types
/// without a cell of their own are kept as bytes.
pub fn decode_binary_cell(oid: Oid, b: Vec<u8>) -> (r: Result<Cell, ValueError>)
    ensures
        r is Ok <==> binary_decodes(oid, b@),
        r matches Ok(c) ==> binary_cell_ok(oid, b@, c) && c.wf(),
        fixed_len(oid) != 0 && b@.len() != fixed_len(oid) ==> r
            == Err::<Cell, ValueError>(ValueError::BadLength),
        oid == TIME_OID && b@.len() == 8 ==> match r {
            Ok(c) => binary_cell_ok(oid, b@, c) && c.wf(),
            Err(e) => e == ValueError::OutOfRange && !(0 <= signed(be(b@), 64) < 86_400_000_000),
        },
        is_text_oid(oid) ==> match r {
            Ok(c) => binary_cell_ok(oid, b@, c),
            Err(e) => e == ValueError::BadUtf8 && !valid_utf8(b@),
        },
        is_temporal_oid(oid) && b@.len() == fixed_len(oid) ==> match r {
            Ok(c) => binary_cell_ok(oid, b@, c) && c.wf(),
            Err(e) => e == ValueError::OutOfRange,
        },
        oid != TIME_OID && !is_temporal_oid(oid) && !is_text_oid(oid)
            && oid != NUMERIC_OID && (fixed_len(oid) == 0
            || b@.len() == fixed_len(oid)) ==> (r matches Ok(c) && binary_cell_ok(oid, b@, c)
            && c.wf()),
{
    let n = b.len();
    match oid {
        NUMERIC_OID => match numeric_string(&b) {
            Some(t) => Ok(Cell::Numeric(t)),
            None => Err(ValueError::BadNumeric),
        },
        DATE_OID => {
            if n != 4 {
                return Err(ValueError::BadLength);
            }
            let v = read_be_vec(&b);
            proof {
                reveal_with_fuel(pow256, 5);
            }
            let days: i64 = if v >= 0x8000_0000 { v as i64 - 0x1_0000_0000 } else { v as i64 };
            match date_after_epoch(days) {
                Some(d) => Ok(Cell::Date(d)),
                None => Err(ValueError::OutOfRange),
            }
        },
        TIMESTAMP_OID | TIMESTAMPTZ_OID => {
            if n != 8 {
                return Err(ValueError::BadLength);
            }
            let v = read_be_vec(&b);
            let s: i64 = if v >= 0x8000_0000_0000_0000u64 {
                (v as i128 - 0x1_0000_0000_0000_0000i128) as i64
            } else {
                v as i64
            };
            match timestamp_after_epoch(s) {
                Some(t) => {
                    if oid == TIMESTAMP_OID {
                        Ok(Cell::TimeStamp(t))
                    } else {
                        Ok(Cell::TimeStampTz(t))
                    }
                },
                None => Err(ValueError::OutOfRange),
            }
        },
        BOOL_OID => {
            if n != 1 {
                return Err(ValueError::BadLength);
            }
            Ok(Cell::Bool(b[0] != 0))
        },
        INT2_OID => {
            if n != 2 {
                return Err(ValueError::BadLength);
            }
            let v = read_be_vec(&b);
            proof {
                reveal_with_fuel(pow256, 3);
            }
            let s: i64 = if v >= 0x8000 { v as i64 - 0x1_0000 } else { v as i64 };
            Ok(Cell::I16(s as i16))
        },
        INT4_OID => {
            if n != 4 {
                return Err(ValueError::BadLength);
            }
            let v = read_be_vec(&b);
            proof {
                reveal_with_fuel(pow256, 5);
            }
            let s: i64 = if v >= 0x8000_0000 { v as i64 - 0x1_0000_0000 } else { v as i64 };
            Ok(Cell::I32(s as i32))
        },
        INT8_OID | TIME_OID => {
            if n != 8 {
                return Err(ValueError::BadLength);
            }
            let v = read_be_vec(&b);
            let s: i64 = if v >= 0x8000_0000_0000_0000u64 {
                (v as i128 - 0x1_0000_0000_0000_0000i128) as i64
            } else {
                v as i64
            };
            if oid == INT8_OID {
                Ok(Cell::I64(s))
            } else if 0 <= s && s < 86_400_000_000 {
                let t = Time {
                    hour: (s / 3_600_000_000) as u32,
                    minute: ((s / 60_000_000) % 60) as u32,
                    second: ((s / 1_000_000) % 60) as u32,
                    micro: (s % 1_000_000) as u32,
                };
                Ok(Cell::Time(t))
            } else {
                Err(ValueError::OutOfRange)
            }
        },
        FLOAT4_OID => {
            if n != 4 {
                return Err(ValueError::BadLength);
            }
            let v = read_be_vec(&b);
            proof {
                reveal_with_fuel(pow256, 5);
            }
            Ok(Cell::F32(v as u32))
        },
        FLOAT8_OID => {
            if n != 8 {
                return Err(ValueError::BadLength);
            }
            Ok(Cell::F64(read_be_vec(&b)))
        },
        UUID_OID => {
            if n != 16 {
                return Err(ValueError::BadLength);
            }
            let mut u = [0u8; 16];
            let mut i: usize = 0;
            while i < 16
                invariant
                    b@.len() == 16,
                    0 <= i <= 16,
                    forall|j: int| 0 <= j < i ==> u@[j] == b@[j],
                decreases 16 - i,
            {
                u.set(i, b[i]);
                i += 1;
            }
            assert(u@ =~= b@);
            Ok(Cell::Uuid(u))
        },
        CHAR_OID | BPCHAR_OID | VARCHAR_OID | NAME_OID | TEXT_OID => {
            match utf8_string(b) {
                Some(s) => Ok(Cell::String(s)),
                None => Err(ValueError::BadUtf8),
            }
        },
        _ => Ok(Cell::Bytes(b)),
    }
}

/// A text value sent as the UTF-8 bytes of `s` always decodes, and what it
/// decodes to holds exactly the characters of `s`.
pub proof fn lemma_text_value_round_trip(oid: Oid, s: Seq<char>, c: Cell)
    requires
        is_text_oid(oid),
        binary_cell_ok(oid, encode_utf8(s), c),
    ensures
        binary_decodes(oid, encode_utf8(s)),
        c matches Cell::String(t) && t@ == s,
{
    vstd::utf8::encode_utf8_valid_utf8(s);
    if let Cell::String(t) = c {
        vstd::utf8::encode_utf8_decode_utf8(s);
        vstd::utf8::encode_utf8_decode_utf8(t@);
    }
}

/// A uuid value sent as its sixteen bytes decodes back to those bytes.
pub proof fn lemma_uuid_value_round_trip(u: [u8; 16], c: Cell)
    requires
        binary_cell_ok(UUID_OID, u@, c),
    ensures
        binary_decodes(UUID_OID, u@),
        c matches Cell::Uuid(v) && v@ == u@,
{
}

} // verus!
