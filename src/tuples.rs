//! Decoding of the row tuples of insert, update and delete messages: a
//! column count, then per column `n` (null), `u` (unchanged toasted value),
//! `t` (text, which this pipeline never asks for) or `b` (binary) with a
//! four-byte length and the value.
use vstd::prelude::*;
use crate::model::{Cell, Oid};
use crate::engine::TupleValue;
use crate::values::{decode_binary_cell, binary_cell_ok, binary_decodes, ValueError};
use crate::wire::{field, read_be, lemma_field_bound, lemma_pow256_8};

verus! {

pub const NULL_TAG: u8 = 110;

pub const TOAST_TAG: u8 = 117;

pub const TEXT_TAG: u8 = 116;

pub const BINARY_TAG: u8 = 98;

/// Why a tuple could not be decoded.
#[derive(Clone, Copy, Debug, PartialEq, Eq, Structural)]
pub enum TupleError {
    /// The tuple ends early or a column has an unknown tag.
    Malformed,
    /// The tuple has another number of columns than its table.
    ColumnCountMismatch,
    /// The column was sent as text.
    UnsupportedFormat(usize),
    /// The column's binary value does not decode.
    InvalidValue(usize, ValueError),
}

/// The column entry at `p`: its tag and where its value starts and ends.
pub open spec fn col_at(b: Seq<u8>, p: int) -> Option<(u8, int, int)> {
    if p < 0 || p >= b.len() {
        None
    } else if b[p] == NULL_TAG || b[p] == TOAST_TAG {
        Some((b[p], p + 1, p + 1))
    } else if b[p] == TEXT_TAG || b[p] == BINARY_TAG {
        if p + 5 > b.len() {
            None
        } else if p + 5 + field(b, p + 1, 4) > b.len() {
            None
        } else {
            Some((b[p], p + 5, p + 5 + field(b, p + 1, 4)))
        }
    } else {
        None
    }
}

pub open spec fn end_of(spans: Seq<(u8, int, int)>, p: int) -> int {
    if spans.len() == 0 {
        p
    } else {
        spans.last().2
    }
}

/// The first `k` column entries from `p`.
pub open spec fn spans(b: Seq<u8>, p: int, k: nat) -> Option<Seq<(u8, int, int)>>
    decreases k,
{
    if k == 0 {
        Some(seq![])
    } else {
        match spans(b, p, (k - 1) as nat) {
            Some(s) => match col_at(b, end_of(s, p)) {
                Some(c) => Some(s.push(c)),
                None => None,
            },
            None => None,
        }
    }
}

/// Column `i` decoded as `v` from entry `sp` of a column of type `oid`.
pub open spec fn column_ok(b: Seq<u8>, oid: Oid, sp: (u8, int, int), v: TupleValue) -> bool {
    if sp.0 == NULL_TAG {
        v matches TupleValue::Value(c) && c is Null
    } else if sp.0 == TOAST_TAG {
        v is UnchangedToast
    } else {
        &&& sp.0 == BINARY_TAG
        &&& v matches TupleValue::Value(c)
        &&& binary_cell_ok(oid, b.subrange(sp.1, sp.2), c)
    }
}

/// Column entry `sp` of a column of type `oid` decodes: it is null, an
/// unchanged toasted value, or a binary value that decodes.
pub open spec fn column_fine(b: Seq<u8>, oid: Oid, sp: (u8, int, int)) -> bool {
    sp.0 != TEXT_TAG && (sp.0 == BINARY_TAG ==> binary_decodes(oid, b.subrange(sp.1, sp.2)))
}

/// The tuple at `off` has one entry per type in `types`, and each decodes.
pub open spec fn tuple_fine(b: Seq<u8>, off: int, types: Seq<Oid>) -> bool {
    &&& off + 2 <= b.len()
    &&& field(b, off, 2) == types.len()
    &&& spans(b, off + 2, types.len()) matches Some(sp)
    &&& forall|j: int| 0 <= j < types.len() ==> column_fine(b, types[j], #[trigger] sp[j])
}

/// No entry of the tuple at `off` is an unchanged toasted value.
pub open spec fn no_toast(b: Seq<u8>, off: int, n: nat) -> bool {
    spans(b, off + 2, n) matches Some(sp) && forall|j: int| 0 <= j < n ==> (#[trigger] sp[j]).0 != TOAST_TAG
}

/// Where the tuple at `off` with `n` entries ends.
pub open spec fn tuple_end(b: Seq<u8>, off: int, n: nat) -> int {
    end_of(spans(b, off + 2, n).unwrap(), off + 2)
}

proof fn lemma_spans_none_after(b: Seq<u8>, p: int, i: nat, k: nat)
    requires
        i <= k,
        spans(b, p, i) is None,
    ensures
        spans(b, p, k) is None,
    decreases k,
{
    if i < k {
        lemma_spans_none_after(b, p, i, (k - 1) as nat);
    }
}

pub(crate) proof fn lemma_spans_prefix(b: Seq<u8>, p: int, i: nat, k: nat)
    requires
        i <= k,
        spans(b, p, k) is Some,
    ensures
        spans(b, p, i) is Some,
        spans(b, p, i).unwrap() == spans(b, p, k).unwrap().subrange(0, i as int),
        spans(b, p, k).unwrap().len() == k,
    decreases k,
{
    if k > 0 {
        if spans(b, p, (k - 1) as nat) is None {
            lemma_spans_none_after(b, p, (k - 1) as nat, k);
        }
        lemma_spans_prefix(b, p, if i < k { i } else { (k - 1) as nat }, (k - 1) as nat);
        let s = spans(b, p, (k - 1) as nat).unwrap();
        assert(spans(b, p, k).unwrap() == s.push(col_at(b, end_of(s, p)).unwrap()));
        if i < k {
            assert(s.push(col_at(b, end_of(s, p)).unwrap()).subrange(0, i as int) =~= s.subrange(
                0,
                i as int,
            ));
        } else {
            assert(spans(b, p, k).unwrap().subrange(0, k as int) =~= spans(b, p, k).unwrap());
        }
    }
}

fn copy_range(b: &[u8], start: usize, end: usize) -> (r: Vec<u8>)
    requires
        start <= end <= b@.len(),
    ensures
        r@ == b@.subrange(start as int, end as int),
{
    let mut v: Vec<u8> = Vec::new();
    let mut i = start;
    while i < end
        invariant
            start <= i <= end <= b@.len(),
            v@ == b@.subrange(start as int, i as int),
        decreases end - i,
    {
        v.push(b[i]);
        assert(v@ =~= b@.subrange(start as int, i + 1));
        i += 1;
    }
    v
}

fn read_u32_at(b: &[u8], off: usize) -> (r: u64)
    requires
        off + 4 <= b@.len(),
    ensures
        r == field(b@, off as int, 4),
        r < 0x1_0000_0000,
{
    let v = read_be(b, off, 4);
    proof {
        lemma_field_bound(b@, off as int, 4);
        lemma_pow256_8();
    }
    v
}

/// Decodes the tuple at `off` of a table whose columns have types `types`;
/// on success also returns where the tuple ends.
pub fn decode_tuple(b: &[u8], off: usize, types: &[Oid]) -> (r: Result<
    (Vec<TupleValue>, usize),
    TupleError,
>)
    ensures
        off + 2 > b@.len() ==> r == Err::<(Vec<TupleValue>, usize), TupleError>(
            TupleError::Malformed,
        ),
        off + 2 <= b@.len() && field(b@, off as int, 2) != types@.len() ==> r == Err::<
            (Vec<TupleValue>, usize),
            TupleError,
        >(TupleError::ColumnCountMismatch),
        tuple_fine(b@, off as int, types@) ==> r is Ok,
        off + 2 <= b@.len() && field(b@, off as int, 2) == types@.len() ==> match r {
            Ok((vals, end)) => {
                &&& spans(b@, off + 2, types@.len()) matches Some(sp)
                &&& end == end_of(sp, off + 2)
                &&& vals@.len() == types@.len()
                &&& forall|i: int|
                    0 <= i < types@.len() ==> column_ok(b@, types@[i], sp[i], #[trigger] vals@[i])
            },
            Err(TupleError::Malformed) => spans(b@, off + 2, types@.len()) is None,
            Err(TupleError::UnsupportedFormat(i)) => {
                &&& i < types@.len()
                &&& spans(b@, off + 2, (i + 1) as nat) matches Some(sp)
                &&& sp[i as int].0 == TEXT_TAG
                &&& forall|j: int| 0 <= j < i ==> column_fine(b@, types@[j], #[trigger] sp[j])
            },
            Err(TupleError::InvalidValue(i, _)) => {
                &&& i < types@.len()
                &&& spans(b@, off + 2, (i + 1) as nat) matches Some(sp)
                &&& sp[i as int].0 == BINARY_TAG
                &&& !binary_decodes(types@[i as int], b@.subrange(sp[i as int].1, sp[i as int].2))
                &&& forall|j: int| 0 <= j < i ==> column_fine(b@, types@[j], #[trigger] sp[j])
            },
            Err(TupleError::ColumnCountMismatch) => false,
        },
{
    let len = b.len();
    if off > len || len - off < 2 {
        return Err(TupleError::Malformed);
    }
    let count = read_be(b, off, 2);
    if count != types.len() as u64 {
        return Err(TupleError::ColumnCountMismatch);
    }
    let n = types.len();
    let ghost start = off + 2;
    let mut vals: Vec<TupleValue> = Vec::new();
    let mut p: usize = off + 2;
    let mut i: usize = 0;
    while i < n
        invariant
            len == b@.len(),
            n == types@.len(),
            off + 2 <= len,
            field(b@, off as int, 2) == n,
            start == off + 2,
            0 <= i <= n,
            p <= len,
            spans(b@, start, i as nat) matches Some(sp) && p == end_of(sp, start) && (forall|j: int|
                0 <= j < i ==> column_ok(b@, types@[j], sp[j], #[trigger] vals@[j])) && (forall|j: int|
                0 <= j < i ==> column_fine(b@, types@[j], #[trigger] sp[j])),
            vals@.len() == i,
        decreases n - i,
    {
        let ghost sp = spans(b@, start, i as nat).unwrap();
        let ghost next = spans(b@, start, (i + 1) as nat);
        proof {
            lemma_spans_prefix(b@, start, i as nat, i as nat);
        }
        if p >= len {
            proof {
                lemma_spans_none_after(b@, start, (i + 1) as nat, n as nat);
            }
            return Err(TupleError::Malformed);
        }
        let tag = b[p];
        if tag == NULL_TAG {
            vals.push(TupleValue::Value(Cell::Null));
            p = p + 1;
        } else if tag == TOAST_TAG {
            vals.push(TupleValue::UnchangedToast);
            p = p + 1;
        } else if tag == TEXT_TAG || tag == BINARY_TAG {
            if len - p < 5 {
                proof {
                    lemma_spans_none_after(b@, start, (i + 1) as nat, n as nat);
                }
                return Err(TupleError::Malformed);
            }
            let l = read_u32_at(b, p + 1);
            if ((len - p - 5) as u64) < l {
                proof {
                    lemma_spans_none_after(b@, start, (i + 1) as nat, n as nat);
                }
                return Err(TupleError::Malformed);
            }
            if tag == TEXT_TAG {
                proof {
                    if spans(b@, start, n as nat) is Some {
                        lemma_spans_prefix(b@, start, (i + 1) as nat, n as nat);
                    }
                }
                assert(col_at(b@, p as int) == Some((tag, p + 5, p + 5 + l)));
                assert(next == Some(sp.push((tag, p + 5, p + 5 + l))));
                assert(next.unwrap()[i as int].0 == TEXT_TAG);
                return Err(TupleError::UnsupportedFormat(i));
            }
            let end = p + 5 + l as usize;
            let bytes = copy_range(b, p + 5, end);
            match decode_binary_cell(types[i], bytes) {
                Ok(c) => {
                    vals.push(TupleValue::Value(c));
                },
                Err(e) => {
                    proof {
                        if spans(b@, start, n as nat) is Some {
                            lemma_spans_prefix(b@, start, (i + 1) as nat, n as nat);
                        }
                    }
                    assert(col_at(b@, p as int) == Some((tag, p + 5, p + 5 + l)));
                    assert(next == Some(sp.push((tag, p + 5, p + 5 + l))));
                    assert(next.unwrap()[i as int].0 == BINARY_TAG);
                    return Err(TupleError::InvalidValue(i, e));
                },
            }
            p = end;
        } else {
            proof {
                lemma_spans_none_after(b@, start, (i + 1) as nat, n as nat);
            }
            return Err(TupleError::Malformed);
        }
        proof {
            let sp2 = next.unwrap();
            assert(sp2 == sp.push(col_at(b@, end_of(sp, start)).unwrap()));
            assert forall|j: int| 0 <= j < i + 1 implies column_ok(
                b@,
                types@[j],
                sp2[j],
                #[trigger] vals@[j],
            ) by {
                if j < i {
                    assert(sp2[j] == sp[j]);
                }
            }
            assert forall|j: int| 0 <= j < i + 1 implies column_fine(b@, types@[j], #[trigger] sp2[j]) by {
                if j < i {
                    assert(sp2[j] == sp[j]);
                }
            }
        }
        i += 1;
    }
    Ok((vals, p))
}

} // verus!
