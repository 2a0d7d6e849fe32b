//! Reading back the canonical text of cells: decimal integers, booleans and
//! hexadecimal bytes.
use vstd::prelude::*;
use crate::model::{Cell, CellKind};
use crate::text::{digit_char, nat_text, int_text, hex_char, hex_text};

verus! {

pub open spec fn is_digit(c: char) -> bool {
    '0' <= c <= '9'
}

pub open spec fn digit_value(c: char) -> nat {
    (c as int - 48) as nat
}

/// The value of a string of decimal digits.
pub open spec fn digits_value(s: Seq<char>) -> nat
    decreases s.len(),
{
    if s.len() == 0 {
        0
    } else {
        digits_value(s.drop_last()) * 10 + digit_value(s.last())
    }
}

pub open spec fn all_digits(s: Seq<char>) -> bool {
    forall|i: int| 0 <= i < s.len() ==> is_digit(#[trigger] s[i])
}

/// Canonical decimal text: digits without a leading zero, or a lone `0`,
/// after an optional `-` (never `-0`).
pub open spec fn canonical_nat(s: Seq<char>) -> bool {
    &&& s.len() > 0
    &&& all_digits(s)
    &&& (s[0] == '0' ==> s.len() == 1)
}

pub open spec fn canonical_int(s: Seq<char>) -> bool {
    if s.len() > 0 && s[0] == '-' {
        canonical_nat(s.drop_first()) && digits_value(s.drop_first()) > 0
    } else {
        canonical_nat(s)
    }
}

pub open spec fn int_value(s: Seq<char>) -> int {
    if s.len() > 0 && s[0] == '-' {
        -(digits_value(s.drop_first()) as int)
    } else {
        digits_value(s) as int
    }
}

proof fn lemma_digit(d: nat)
    requires
        d < 10,
    ensures
        is_digit(digit_char(d)),
        digit_value(digit_char(d)) == d,
        digit_char(d) == '0' <==> d == 0,
{
}

proof fn lemma_nat_text_canonical(n: nat)
    ensures
        canonical_nat(nat_text(n)),
        digits_value(nat_text(n)) == n,
        nat_text(n)[0] == '0' ==> n == 0,
    decreases n,
{
    if n < 10 {
        lemma_digit(n);
        let t = nat_text(n);
        assert(t.drop_last() =~= Seq::<char>::empty());
        assert(digits_value(t.drop_last()) == 0);
        assert(t.last() == digit_char(n));
        assert(digits_value(t) == digits_value(t.drop_last()) * 10 + digit_value(t.last()));
    } else {
        lemma_digit(n % 10);
        lemma_nat_text_canonical(n / 10);
        let t = nat_text(n);
        assert(t.drop_last() =~= nat_text(n / 10));
        assert forall|i: int| 0 <= i < t.len() implies is_digit(#[trigger] t[i]) by {
            if i < t.len() - 1 {
                assert(t[i] == nat_text(n / 10)[i]);
            }
        }
        assert(t[0] == nat_text(n / 10)[0]);
        assert(t.last() == digit_char(n % 10));
        assert(digits_value(t) == digits_value(nat_text(n / 10)) * 10 + digit_value(t.last()));
        assert((n / 10) * 10 + n % 10 == n);
        assert(digits_value(nat_text(n / 10)) == n / 10);
        assert(digit_value(t.last()) == n % 10);
    }
}

/// The decimal text of an integer is canonical and reads back as it.
pub proof fn lemma_int_text_round_trip(i: int)
    ensures
        canonical_int(int_text(i)),
        int_value(int_text(i)) == i,
{
    if i < 0 {
        lemma_nat_text_canonical((-i) as nat);
        assert(int_text(i).drop_first() =~= nat_text((-i) as nat));
    } else {
        lemma_nat_text_canonical(i as nat);
        if nat_text(i as nat)[0] == '-' {
            assert(is_digit(nat_text(i as nat)[0]));
        }
    }
}

/// Reads canonical decimal text; `None` for anything else or for a value
/// outside `[lo, hi]`.
pub fn parse_int(s: &str, lo: i64, hi: i64) -> (r: Option<i64>)
    ensures
        r == (if canonical_int(s@) && lo <= int_value(s@) <= hi {
            Some(int_value(s@) as i64)
        } else {
            None::<i64>
        }),
{
    let n = s.unicode_len();
    if n == 0 {
        return None;
    }
    let neg = s.get_char(0) == '-';
    let start: usize = if neg { 1 } else { 0 };
    let ghost body = s@.subrange(start as int, n as int);
    if neg {
        assert(body =~= s@.drop_first());
    } else {
        assert(body =~= s@);
    }
    if start == n {
        assert(!canonical_int(s@));
        return None;
    }
    if s.get_char(start) == '0' && n > start + 1 {
        assert(body[0] == '0');
        assert(!canonical_nat(body));
        assert(!canonical_int(s@));
        return None;
    }
    let mut acc: u128 = 0;
    let mut i: usize = start;
    while i < n
        invariant
            n == s@.len(),
            start <= i <= n,
            body == s@.subrange(start as int, n as int),
            neg == (s@[0] == '-'),
            neg ==> body == s@.drop_first(),
            !neg ==> body == s@,
            all_digits(s@.subrange(start as int, i as int)),
            acc == digits_value(s@.subrange(start as int, i as int)),
            acc <= 0x1_0000_0000_0000_0000u128,
        decreases n - i,
    {
        let c = s.get_char(i);
        let ghost pre = s@.subrange(start as int, i as int);
        let ghost next = s@.subrange(start as int, i + 1);
        assert(next.drop_last() =~= pre);
        if !('0' <= c && c <= '9') {
            assert(body[i - start] == c);
            assert(!all_digits(body));
            assert(!canonical_int(s@));
            return None;
        }
        let d = (c as u32 - 48) as u128;
        acc = acc * 10 + d;
        if acc > 0x1_0000_0000_0000_0000u128 {
            proof {
                lemma_digits_value_grows(body, (i + 1 - start) as nat);
                assert(body.subrange(0, i + 1 - start) =~= next);
                assert(body.subrange(0, body.len() as int) =~= body);
                assert(digits_value(body) > 0x1_0000_0000_0000_0000);
                assert(!(lo <= int_value(s@) <= hi));
            }
            return None;
        }
        i += 1;
    }
    assert(s@.subrange(start as int, n as int) =~= body);
    let v: i128 = if neg { -(acc as i128) } else { acc as i128 };
    assert(all_digits(body));
    assert(acc == digits_value(body));
    assert(int_value(s@) == v);
    if neg && acc == 0 {
        assert(!canonical_int(s@));
        return None;
    }
    if v < lo as i128 || v > hi as i128 {
        return None;
    }
    assert(canonical_int(s@));
    Some(v as i64)
}

proof fn lemma_digits_value_grows(s: Seq<char>, k: nat)
    requires
        k <= s.len(),
    ensures
        digits_value(s.subrange(0, k as int)) <= digits_value(s),
    decreases s.len(),
{
    if k < s.len() {
        let p = s.drop_last();
        assert(p.subrange(0, k as int) =~= s.subrange(0, k as int));
        lemma_digits_value_grows(p, k);
    } else {
        assert(s.subrange(0, k as int) =~= s);
    }
}

pub open spec fn is_hex_digit(c: char) -> bool {
    ('0' <= c <= '9') || ('a' <= c <= 'f')
}

pub open spec fn nibble(c: char) -> nat {
    if c <= '9' {
        (c as int - 48) as nat
    } else {
        (c as int - 87) as nat
    }
}

/// Canonical hexadecimal text: lower-case digits, two per byte.
pub open spec fn canonical_hex(s: Seq<char>) -> bool {
    &&& s.len() % 2 == 0
    &&& forall|i: int| 0 <= i < s.len() ==> is_hex_digit(#[trigger] s[i])
}

/// The bytes that hexadecimal text stands for.
pub open spec fn hex_value(s: Seq<char>) -> Seq<u8>
    decreases s.len(),
{
    if s.len() < 2 {
        seq![]
    } else {
        hex_value(s.subrange(0, s.len() - 2)).push(
            (nibble(s[s.len() - 2]) * 16 + nibble(s[s.len() - 1])) as u8,
        )
    }
}

proof fn lemma_hex_char(d: nat)
    requires
        d < 16,
    ensures
        is_hex_digit(hex_char(d)),
        nibble(hex_char(d)) == d,
{
}

proof fn lemma_hex_text_len(b: Seq<u8>)
    ensures
        hex_text(b).len() == 2 * b.len(),
    decreases b.len(),
{
    if b.len() > 0 {
        lemma_hex_text_len(b.drop_last());
    }
}

/// Hexadecimal text reads back as the bytes it was written from.
pub proof fn lemma_hex_round_trip(b: Seq<u8>)
    ensures
        canonical_hex(hex_text(b)),
        hex_value(hex_text(b)) == b,
    decreases b.len(),
{
    lemma_hex_text_len(b);
    if b.len() > 0 {
        let p = b.drop_last();
        lemma_hex_round_trip(p);
        lemma_hex_text_len(p);
        let t = hex_text(b);
        let x = b.last();
        lemma_hex_char(x as nat / 16);
        lemma_hex_char(x as nat % 16);
        assert(t.subrange(0, t.len() - 2) =~= hex_text(p));
        assert(t[t.len() - 2] == hex_char(x as nat / 16));
        assert(t[t.len() - 1] == hex_char(x as nat % 16));
        assert((x as nat / 16) * 16 + x as nat % 16 == x as nat);
        assert forall|i: int| 0 <= i < t.len() implies is_hex_digit(#[trigger] t[i]) by {
            if i < t.len() - 2 {
                assert(t[i] == hex_text(p)[i]);
            }
        }
        assert(hex_value(t) =~= b);
    } else {
        assert(hex_text(b) =~= Seq::<char>::empty());
    }
}

fn nibble_of(c: char) -> (r: Option<u8>)
    ensures
        r == (if is_hex_digit(c) {
            Some(nibble(c) as u8)
        } else {
            None::<u8>
        }),
{
    if '0' <= c && c <= '9' {
        Some((c as u32 - 48) as u8)
    } else if 'a' <= c && c <= 'f' {
        Some((c as u32 - 87) as u8)
    } else {
        None
    }
}

/// Reads canonical hexadecimal text; `None` for anything else.
pub fn parse_hex(s: &str) -> (r: Option<Vec<u8>>)
    ensures
        canonical_hex(s@) ==> (r matches Some(v) && v@ == hex_value(s@)),
        !canonical_hex(s@) ==> r is None,
{
    let n = s.unicode_len();
    if n % 2 != 0 {
        return None;
    }
    let mut v: Vec<u8> = Vec::new();
    let mut i: usize = 0;
    while i < n
        invariant
            n == s@.len(),
            n % 2 == 0,
            i % 2 == 0,
            0 <= i <= n,
            forall|j: int| 0 <= j < i ==> is_hex_digit(#[trigger] s@[j]),
            v@ == hex_value(s@.subrange(0, i as int)),
        decreases n - i,
    {
        let hi = nibble_of(s.get_char(i));
        let lo = nibble_of(s.get_char(i + 1));
        match (hi, lo) {
            (Some(h), Some(l)) => {
                let ghost next = s@.subrange(0, i + 2);
                assert(next.subrange(0, next.len() - 2) =~= s@.subrange(0, i as int));
                v.push(h * 16 + l);
            },
            _ => {
                return None;
            },
        }
        i += 2;
    }
    assert(s@.subrange(0, n as int) =~= s@);
    Some(v)
}

/// The canonical text of a boolean, integer or bytes cell.
pub open spec fn canonical_text(c: Cell) -> Seq<char> {
    match c {
        Cell::Bool(b) => if b {
            "true"@
        } else {
            "false"@
        },
        Cell::I16(i) => int_text(i as int),
        Cell::I32(i) => int_text(i as int),
        Cell::I64(i) => int_text(i as int),
        Cell::Bytes(b) => hex_text(b@),
        _ => seq![],
    }
}

/// What `decode_cell_text` gives back for canonical text of a kind.
pub open spec fn decoded(kind: CellKind, s: Seq<char>) -> Option<Cell> {
    match kind {
        CellKind::Bool => if s == "true"@ {
            Some(Cell::Bool(true))
        } else if s == "false"@ {
            Some(Cell::Bool(false))
        } else {
            None
        },
        CellKind::I16 => if canonical_int(s) && i16::MIN <= int_value(s) <= i16::MAX {
            Some(Cell::I16(int_value(s) as i16))
        } else {
            None
        },
        CellKind::I32 => if canonical_int(s) && i32::MIN <= int_value(s) <= i32::MAX {
            Some(Cell::I32(int_value(s) as i32))
        } else {
            None
        },
        CellKind::I64 => if canonical_int(s) && i64::MIN <= int_value(s) <= i64::MAX {
            Some(Cell::I64(int_value(s) as i64))
        } else {
            None
        },
        _ => None,
    }
}

/// Reads a boolean, integer or bytes cell of `kind` from its canonical text;
/// `None` for other kinds and for text that is not canonical or out of range.
pub fn decode_cell_text(kind: CellKind, s: &str) -> (r: Option<Cell>)
    ensures
        kind == CellKind::Bytes ==> if canonical_hex(s@) {
            r matches Some(Cell::Bytes(b)) && b@ == hex_value(s@)
        } else {
            r is None
        },
        kind != CellKind::Bytes ==> r == decoded(kind, s@),
{
    match kind {
        CellKind::Bool => {
            let t = String::from_str("true");
            let f = String::from_str("false");
            let owned = String::from_str(s);
            if owned.eq(&t) {
                Some(Cell::Bool(true))
            } else if owned.eq(&f) {
                Some(Cell::Bool(false))
            } else {
                None
            }
        },
        CellKind::I16 => match parse_int(s, i16::MIN as i64, i16::MAX as i64) {
            Some(v) => Some(Cell::I16(v as i16)),
            None => None,
        },
        CellKind::I32 => match parse_int(s, i32::MIN as i64, i32::MAX as i64) {
            Some(v) => Some(Cell::I32(v as i32)),
            None => None,
        },
        CellKind::I64 => match parse_int(s, i64::MIN, i64::MAX) {
            Some(v) => Some(Cell::I64(v)),
            None => None,
        },
        CellKind::Bytes => match parse_hex(s) {
            Some(b) => Some(Cell::Bytes(b)),
            None => None,
        },
        _ => None,
    }
}

/// Decoding the canonical text of a boolean or integer cell gives the cell
/// back; for a bytes cell it gives back the same bytes.
pub proof fn lemma_decode_encode(c: Cell)
    requires
        c is Bool || c is I16 || c is I32 || c is I64 || c is Bytes,
    ensures
        c is Bytes ==> canonical_hex(canonical_text(c)) && hex_value(canonical_text(c)) == (match c {
            Cell::Bytes(b) => b@,
            _ => seq![],
        }),
        !(c is Bytes) ==> decoded(crate::model::spec_cell_kind(c).unwrap(), canonical_text(c)) == Some(c),
{
    match c {
        Cell::Bool(b) => {
            if !b {
                reveal_strlit("false");
                reveal_strlit("true");
                assert("false"@.len() != "true"@.len());
            }
        },
        Cell::I16(i) => lemma_int_text_round_trip(i as int),
        Cell::I32(i) => lemma_int_text_round_trip(i as int),
        Cell::I64(i) => lemma_int_text_round_trip(i as int),
        Cell::Bytes(b) => lemma_hex_round_trip(b@),
        _ => {},
    }
}

} // verus!
