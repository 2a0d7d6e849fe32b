//! Canonical text of cell values: decimal integers, hexadecimal bytes, UUIDs,
//! dates and times, and quoting for SQL.
use vstd::prelude::*;
use crate::model::{Date, Time, DateTime};

verus! {

/// Relies on std's `String::push`: appends one character.
#[verifier::external_body]
pub(crate) fn push_char(s: &mut String, c: char)
    ensures
        final(s)@ == old(s)@.push(c),
{
    s.push(c);
}

/// Appends `t` to `s`.
pub fn push_str(s: &mut String, t: &str)
    ensures
        final(s)@ == old(s)@ + t@,
{
    s.append(t);
}

pub open spec fn digit_char(d: nat) -> char {
    (48 + d) as char
}

/// Decimal digits of `n`, most significant first, without leading zeros.
pub open spec fn nat_text(n: nat) -> Seq<char>
    decreases n,
{
    if n < 10 {
        seq![digit_char(n)]
    } else {
        nat_text(n / 10).push(digit_char(n % 10))
    }
}

/// Decimal text of an integer, with a leading `-` when it is negative.
pub open spec fn int_text(i: int) -> Seq<char> {
    if i < 0 {
        seq!['-'] + nat_text((-i) as nat)
    } else {
        nat_text(i as nat)
    }
}

pub(crate) fn digit(d: u64) -> (c: char)
    requires
        d < 10,
    ensures
        c == digit_char(d as nat),
{
    ((48u8 + d as u8) as char)
}

/// Appends the decimal digits of `n`.
pub fn push_nat(s: &mut String, n: u64)
    ensures
        final(s)@ == old(s)@ + nat_text(n as nat),
    decreases n,
{
    if n >= 10 {
        push_nat(s, n / 10);
    }
    push_char(s, digit(n % 10));
    assert(final(s)@ =~= old(s)@ + nat_text(n as nat));
}

/// Appends the decimal text of `v`.
pub fn push_int(s: &mut String, v: i64)
    ensures
        final(s)@ == old(s)@ + int_text(v as int),
{
    if v < 0 {
        push_char(s, '-');
        let m: i128 = -(v as i128);
        push_nat(s, m as u64);
        assert(final(s)@ =~= old(s)@ + int_text(v as int));
    } else {
        push_nat(s, v as u64);
    }
}

pub open spec fn hex_char(d: nat) -> char {
    if d < 10 {
        (48 + d) as char
    } else {
        (87 + d) as char
    }
}

/// Two lower-case hexadecimal digits per byte.
pub open spec fn hex_text(b: Seq<u8>) -> Seq<char>
    decreases b.len(),
{
    if b.len() == 0 {
        seq![]
    } else {
        hex_text(b.drop_last()) + seq![hex_char(b.last() as nat / 16), hex_char(b.last() as nat % 16)]
    }
}

/// The hyphenated lower-case text of a UUID: 8-4-4-4-12 hexadecimal digits.
pub open spec fn uuid_text_of(b: Seq<u8>) -> Seq<char> {
    hex_text(b.subrange(0, 4)) + seq!['-'] + hex_text(b.subrange(4, 6)) + seq!['-'] + hex_text(
        b.subrange(6, 8),
    ) + seq!['-'] + hex_text(b.subrange(8, 10)) + seq!['-'] + hex_text(b.subrange(10, 16))
}

/// Relies on uuid's `Uuid::from_bytes` and its `Display`, which writes the
/// hyphenated lower-case form.
#[verifier::external_body]
pub(crate) fn uuid_text(b: &[u8; 16]) -> (r: String)
    ensures
        r@ == uuid_text_of(b@),
{
    uuid::Uuid::from_bytes(*b).to_string()
}

pub(crate) fn hex_digit(d: u8) -> (c: char)
    requires
        d < 16,
    ensures
        c == hex_char(d as nat),
{
    if d < 10 {
        ((48u8 + d) as char)
    } else {
        ((87u8 + d) as char)
    }
}

/// `n` in decimal, with leading zeros up to `width` digits.
pub open spec fn padded(n: nat, width: nat) -> Seq<char> {
    let t = nat_text(n);
    if t.len() < width {
        Seq::new((width - t.len()) as nat, |i: int| '0') + t
    } else {
        t
    }
}

/// chrono's `%Y`: four digits for years 0 to 9999, otherwise a sign and at
/// least four digits.
pub open spec fn year_text(y: int) -> Seq<char> {
    if 0 <= y <= 9999 {
        padded(y as nat, 4)
    } else {
        (if y < 0 {
            seq!['-']
        } else {
            seq!['+']
        }) + padded((if y < 0 {
            -y
        } else {
            y
        }) as nat, 4)
    }
}

/// chrono's `%Y-%m-%d`.
pub open spec fn date_text_of(year: int, month: int, day: int) -> Seq<char> {
    year_text(year) + seq!['-'] + padded(month as nat, 2) + seq!['-'] + padded(day as nat, 2)
}

/// chrono's `%.f` for a whole number of microseconds: nothing for zero,
/// otherwise a point and three digits of milliseconds when they are exact,
/// else six digits of microseconds.
pub open spec fn fraction_text(micro: int) -> Seq<char> {
    if micro == 0 {
        seq![]
    } else if micro % 1000 == 0 {
        seq!['.'] + padded((micro / 1000) as nat, 3)
    } else {
        seq!['.'] + padded(micro as nat, 6)
    }
}

/// chrono's `%H:%M:%S%.f`.
pub open spec fn time_text_of(hour: int, minute: int, second: int, micro: int) -> Seq<char> {
    padded(hour as nat, 2) + seq![':'] + padded(minute as nat, 2) + seq![':'] + padded(
        second as nat,
        2,
    ) + fraction_text(micro)
}

/// chrono's `%Y-%m-%d %H:%M:%S%.f`.
pub open spec fn timestamp_text_of(
    year: int,
    month: int,
    day: int,
    hour: int,
    minute: int,
    second: int,
    micro: int,
) -> Seq<char> {
    date_text_of(year, month, day) + seq![' '] + time_text_of(hour, minute, second, micro)
}

/// chrono's `%Y-%m-%d %H:%M:%S%.f%:z` in UTC, whose offset is `+00:00`.
pub open spec fn timestamptz_text_of(
    year: int,
    month: int,
    day: int,
    hour: int,
    minute: int,
    second: int,
    micro: int,
) -> Seq<char> {
    timestamp_text_of(year, month, day, hour, minute, second, micro) + seq![
        '+',
        '0',
        '0',
        ':',
        '0',
        '0',
    ]
}

pub open spec fn spec_date_text(d: Date) -> Seq<char> {
    date_text_of(d.year as int, d.month as int, d.day as int)
}

pub open spec fn spec_time_text(t: Time) -> Seq<char> {
    time_text_of(t.hour as int, t.minute as int, t.second as int, t.micro as int)
}

pub open spec fn spec_timestamp_text(t: DateTime) -> Seq<char> {
    timestamp_text_of(
        t.date.year as int,
        t.date.month as int,
        t.date.day as int,
        t.time.hour as int,
        t.time.minute as int,
        t.time.second as int,
        t.time.micro as int,
    )
}

pub open spec fn spec_timestamptz_text(t: DateTime) -> Seq<char> {
    timestamptz_text_of(
        t.date.year as int,
        t.date.month as int,
        t.date.day as int,
        t.time.hour as int,
        t.time.minute as int,
        t.time.second as int,
        t.time.micro as int,
    )
}

/// Relies on chrono's `NaiveDate::from_ymd_opt`, which accepts every valid
/// date in its year range, and on its `%Y-%m-%d` format.
#[verifier::external_body]
pub(crate) fn date_text(d: &Date) -> (r: String)
    requires
        d.wf(),
    ensures
        r@ == date_text_of(d.year as int, d.month as int, d.day as int),
{
    chrono::NaiveDate::from_ymd_opt(d.year, d.month, d.day)
        .map(|v| v.format("%Y-%m-%d").to_string())
        .unwrap_or_default()
}

/// Relies on chrono's `NaiveTime::from_hms_micro_opt`, which accepts every
/// time of day without a leap second, and on its `%H:%M:%S%.f` format.
#[verifier::external_body]
pub(crate) fn time_text(t: &Time) -> (r: String)
    requires
        t.wf(),
    ensures
        r@ == time_text_of(t.hour as int, t.minute as int, t.second as int, t.micro as int),
{
    chrono::NaiveTime::from_hms_micro_opt(t.hour, t.minute, t.second, t.micro)
        .map(|v| v.format("%H:%M:%S%.f").to_string())
        .unwrap_or_default()
}

/// Relies on chrono's `NaiveDate::from_ymd_opt` and `and_hms_micro_opt`, which
/// accept every valid date and time of day, and on the
/// `%Y-%m-%d %H:%M:%S%.f` format of `NaiveDateTime`.
#[verifier::external_body]
pub(crate) fn timestamp_text(t: &DateTime) -> (r: String)
    requires
        t.wf(),
    ensures
        r@ == timestamp_text_of(
            t.date.year as int,
            t.date.month as int,
            t.date.day as int,
            t.time.hour as int,
            t.time.minute as int,
            t.time.second as int,
            t.time.micro as int,
        ),
{
    chrono::NaiveDate::from_ymd_opt(t.date.year, t.date.month, t.date.day)
        .and_then(|d| d.and_hms_micro_opt(t.time.hour, t.time.minute, t.time.second, t.time.micro))
        .map(|v| v.format("%Y-%m-%d %H:%M:%S%.f").to_string())
        .unwrap_or_default()
}

/// Relies on chrono as `timestamp_text` does, with `and_utc` and the
/// `%Y-%m-%d %H:%M:%S%.f%:z` format of `DateTime<Utc>`.
#[verifier::external_body]
pub(crate) fn timestamptz_text(t: &DateTime) -> (r: String)
    requires
        t.wf(),
    ensures
        r@ == timestamptz_text_of(
            t.date.year as int,
            t.date.month as int,
            t.date.day as int,
            t.time.hour as int,
            t.time.minute as int,
            t.time.second as int,
            t.time.micro as int,
        ),
{
    chrono::NaiveDate::from_ymd_opt(t.date.year, t.date.month, t.date.day)
        .and_then(|d| d.and_hms_micro_opt(t.time.hour, t.time.minute, t.time.second, t.time.micro))
        .map(|v| v.and_utc().format("%Y-%m-%d %H:%M:%S%.f%:z").to_string())
        .unwrap_or_default()
}

/// How one character is written inside a quoted SQL string or identifier
/// delimited by `quote`: backslash, the delimiter and line breaks are escaped.
pub open spec fn escape_char(c: char, quote: char) -> Seq<char> {
    if c == '\\' || c == quote {
        seq!['\\', c]
    } else if c == '\n' {
        seq!['\\', 'n']
    } else if c == '\r' {
        seq!['\\', 'r']
    } else {
        seq![c]
    }
}

pub open spec fn escaped(s: Seq<char>, quote: char) -> Seq<char>
    decreases s.len(),
{
    if s.len() == 0 {
        seq![]
    } else {
        escaped(s.drop_last(), quote) + escape_char(s.last(), quote)
    }
}

/// `t` between two `quote` characters, escaped.
pub open spec fn quoted(t: Seq<char>, quote: char) -> Seq<char> {
    seq![quote] + escaped(t, quote) + seq![quote]
}

/// Appends the characters of `t`, escaped for a literal delimited by `quote`.
pub fn push_escaped(s: &mut String, t: &str, quote: char)
    ensures
        final(s)@ == old(s)@ + escaped(t@, quote),
{
    let n = t.unicode_len();
    let mut i: usize = 0;
    while i < n
        invariant
            n == t@.len(),
            0 <= i <= n,
            s@ == old(s)@ + escaped(t@.subrange(0, i as int), quote),
        decreases n - i,
    {
        let c = t.get_char(i);
        if c == '\\' || c == quote {
            push_char(s, '\\');
            push_char(s, c);
        } else if c == '\n' {
            push_char(s, '\\');
            push_char(s, 'n');
        } else if c == '\r' {
            push_char(s, '\\');
            push_char(s, 'r');
        } else {
            push_char(s, c);
        }
        assert(t@.subrange(0, i + 1).drop_last() =~= t@.subrange(0, i as int));
        assert(s@ =~= old(s)@ + escaped(t@.subrange(0, i + 1), quote));
        i += 1;
    }
    assert(t@.subrange(0, n as int) =~= t@);
}

/// Appends `t` quoted by `quote`.
pub fn push_quoted(s: &mut String, t: &str, quote: char)
    ensures
        final(s)@ == old(s)@ + quoted(t@, quote),
{
    push_char(s, quote);
    push_escaped(s, t, quote);
    push_char(s, quote);
    assert(final(s)@ =~= old(s)@ + quoted(t@, quote));
}

} // verus!
