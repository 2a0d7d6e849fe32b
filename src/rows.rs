//! Decoding of insert, update and delete messages into change events, under
//! the schemas that relation bulletins announced.
use vstd::prelude::*;
use crate::model::{CdcEvent, Cell, ColumnSchema, Oid, TableId, TableRow};
use crate::engine::{
    latest_schema, merge_unchanged_toast, merged_cell, old_cells, SchemaCache, ToastError,
    TupleValue,
};
use crate::tuples::{column_ok, decode_tuple, spans, tuple_fine, no_toast, tuple_end, TupleError, TOAST_TAG};
use crate::wire::{field, read_be};

verus! {

pub const INSERT_TAG: u8 = 73;

pub const UPDATE_TAG: u8 = 85;

pub const DELETE_TAG: u8 = 68;

pub const NEW_TUPLE_TAG: u8 = 78;

pub const KEY_TUPLE_TAG: u8 = 75;

pub const OLD_TUPLE_TAG: u8 = 79;

/// Why a row message could not be decoded.
#[derive(Clone, Copy, Debug, PartialEq, Eq, Structural)]
pub enum RowMessageError {
    /// The message ends early or its parts are not where they belong.
    Malformed,
    /// The message's tag is not insert, update or delete.
    UnsupportedMessage(u8),
    /// No relation bulletin has announced the table.
    UnknownTable(TableId),
    /// A tuple does not decode.
    Tuple(TupleError),
    /// An unchanged toasted column that no old tuple supplies.
    MissingOldValue(usize),
}

pub open spec fn column_types(cols: Seq<ColumnSchema>) -> Seq<Oid> {
    Seq::new(cols.len(), |i: int| cols[i].typ)
}

fn types_of(cols: &Vec<ColumnSchema>) -> (r: Vec<Oid>)
    ensures
        r@ == column_types(cols@),
{
    let mut r: Vec<Oid> = Vec::new();
    let mut i: usize = 0;
    while i < cols.len()
        invariant
            0 <= i <= cols@.len(),
            r@ == column_types(cols@.subrange(0, i as int)),
        decreases cols@.len() - i,
    {
        r.push(cols[i].typ);
        assert(r@ =~= column_types(cols@.subrange(0, i + 1)));
        i += 1;
    }
    assert(cols@.subrange(0, cols@.len() as int) =~= cols@);
    r
}

/// `cells` is what the tuple at `off` holds under column types `types`, with
/// no unchanged toasted column.
pub open spec fn row_of_tuple(b: Seq<u8>, off: int, types: Seq<Oid>, cells: Seq<Cell>) -> bool {
    &&& off + 2 <= b.len()
    &&& field(b, off, 2) == types.len()
    &&& cells.len() == types.len()
    &&& spans(b, off + 2, types.len()) matches Some(sp)
    &&& forall|i: int|
        0 <= i < types.len() ==> column_ok(b, types[i], sp[i], TupleValue::Value(#[trigger] cells[i]))
}

/// Where the new tuple's tag stands in an update of a table with `n`
/// columns: after the old tuple when there is one.
pub open spec fn update_new_at(b: Seq<u8>, n: nat) -> int {
    if b[5] == KEY_TUPLE_TAG || b[5] == OLD_TUPLE_TAG {
        tuple_end(b, 6, n)
    } else {
        5
    }
}

/// The column entries of an update's new tuple.
pub open spec fn update_new_spans(b: Seq<u8>, n: nat) -> Seq<(u8, int, int)> {
    spans(b, update_new_at(b, n) + 3, n).unwrap()
}

/// Turns decoded tuple values into a row; fails at an unchanged toasted
/// column, which only an update may carry.
fn complete_row(vals: Vec<TupleValue>) -> (r: Result<TableRow, RowMessageError>)
    ensures
        match r {
            Ok(row) => {
                &&& row.values@.len() == vals@.len()
                &&& forall|i: int|
                    0 <= i < vals@.len() ==> vals@[i] == TupleValue::Value(#[trigger] row.values@[i])
            },
            Err(RowMessageError::MissingOldValue(i)) => i < vals@.len() && vals@[i as int] is UnchangedToast,
            Err(_) => false,
        },
{
    let ghost vs = vals@;
    let no_columns: Vec<ColumnSchema> = Vec::new();
    match merge_unchanged_toast(vals, None, false, no_columns.as_slice()) {
        Ok(row) => {
            assert forall|i: int| 0 <= i < vs.len() implies vs[i] == TupleValue::Value(
                #[trigger] row.values@[i],
            ) by {
                assert(row.values@[i] == merged_cell(vs, old_cells(None), i));
                assert(crate::engine::fillable(vs, old_cells(None), false, no_columns@, i));
            }
            Ok(row)
        },
        Err(ToastError::MissingOldValue(i)) => Err(RowMessageError::MissingOldValue(i)),
    }
}

fn tuple_row(b: &[u8], off: usize, types: &Vec<Oid>) -> (r: Result<(TableRow, usize), RowMessageError>)
    ensures
        r matches Ok((row, end)) ==> row_of_tuple(b@, off as int, types@, row.values@) && end
            == tuple_end(b@, off as int, types@.len()) && row.values@.len() == types@.len(),
        tuple_fine(b@, off as int, types@) && no_toast(b@, off as int, types@.len()) ==> r is Ok,
{
    match decode_tuple(b, off, types.as_slice()) {
        Ok((vals, end)) => {
            let ghost vs = vals@;
            match complete_row(vals) {
                Ok(row) => {
                    assert forall|i: int| 0 <= i < types@.len() implies column_ok(
                        b@,
                        types@[i],
                        spans(b@, off + 2, types@.len()).unwrap()[i],
                        TupleValue::Value(#[trigger] row.values@[i]),
                    ) by {
                        assert(vs[i] == TupleValue::Value(row.values@[i]));
                    }
                    Ok((row, end))
                },
                Err(e) => {
                    proof {
                        if no_toast(b@, off as int, types@.len()) {
                            let sp = spans(b@, off + 2, types@.len()).unwrap();
                            if let RowMessageError::MissingOldValue(i) = e {
                                assert(column_ok(b@, types@[i as int], sp[i as int], vs[i as int]));
                                assert(sp[i as int].0 != crate::tuples::TOAST_TAG);
                            }
                        }
                    }
                    Err(e)
                },
            }
        },
        Err(e) => Err(RowMessageError::Tuple(e)),
    }
}

/// Decodes an insert (`I`: table id, `N`, new tuple), delete (`D`: table id,
/// `K` or `O`, old tuple) or update (`U`: table id, optionally `K` or `O` and
/// the old tuple, then `N` and the new tuple) under the latest bulletin for
/// its table. An update's unchanged toasted columns take the old tuple's
/// values.
#[verifier::rlimit(60)]
pub fn decode_row_message(b: &[u8], cache: &SchemaCache) -> (r: Result<CdcEvent, RowMessageError>)
    ensures
        b@.len() == 0 ==> r == Err::<CdcEvent, RowMessageError>(RowMessageError::Malformed),
        b@.len() > 0 && b@[0] != INSERT_TAG && b@[0] != UPDATE_TAG && b@[0] != DELETE_TAG ==> r
            == Err::<CdcEvent, RowMessageError>(RowMessageError::UnsupportedMessage(b@[0])),
        b@.len() >= 5 && (b@[0] == INSERT_TAG || b@[0] == UPDATE_TAG || b@[0] == DELETE_TAG)
            && latest_schema(cache.history(), field(b@, 1, 4) as u32) is None ==> r == Err::<
            CdcEvent,
            RowMessageError,
        >(RowMessageError::UnknownTable(field(b@, 1, 4) as u32)),
        ({
            let s = latest_schema(cache.history(), field(b@, 1, 4) as u32);
            let t = column_types(s.unwrap().column_schemas@);
            &&& b@.len() >= 6
            &&& b@[0] == INSERT_TAG
            &&& s is Some
            &&& b@[5] == NEW_TUPLE_TAG
            &&& tuple_fine(b@, 6, t)
            &&& no_toast(b@, 6, t.len())
        }) ==> r matches Ok(CdcEvent::Insert { .. }),
        ({
            let s = latest_schema(cache.history(), field(b@, 1, 4) as u32);
            let t = column_types(s.unwrap().column_schemas@);
            &&& b@.len() >= 6
            &&& b@[0] == DELETE_TAG
            &&& s is Some
            &&& (b@[5] == KEY_TUPLE_TAG || b@[5] == OLD_TUPLE_TAG)
            &&& tuple_fine(b@, 6, t)
            &&& no_toast(b@, 6, t.len())
        }) ==> r matches Ok(CdcEvent::Delete { .. }),
        ({
            let s = latest_schema(cache.history(), field(b@, 1, 4) as u32);
            let t = column_types(s.unwrap().column_schemas@);
            let has_old = b@[5] == KEY_TUPLE_TAG || b@[5] == OLD_TUPLE_TAG;
            let p = if has_old {
                tuple_end(b@, 6, t.len())
            } else {
                5
            };
            &&& b@.len() >= 6
            &&& b@[0] == UPDATE_TAG
            &&& s is Some
            &&& has_old ==> tuple_fine(b@, 6, t) && no_toast(b@, 6, t.len())
            &&& p < b@.len()
            &&& b@[p] == NEW_TUPLE_TAG
            &&& tuple_fine(b@, p + 1, t)
            &&& !has_old ==> no_toast(b@, p + 1, t.len())
            &&& b@[5] == KEY_TUPLE_TAG ==> forall|i: int|
                0 <= i < t.len() && (#[trigger] update_new_spans(b@, t.len())[i]).0 == TOAST_TAG
                    ==> s.unwrap().column_schemas@[i].identity
        }) ==> r matches Ok(CdcEvent::Update { .. }),
        ({
            let s = latest_schema(cache.history(), field(b@, 1, 4) as u32);
            let t = column_types(s.unwrap().column_schemas@);
            let p = tuple_end(b@, 6, t.len());
            &&& b@.len() >= 6
            &&& b@[0] == UPDATE_TAG
            &&& s is Some
            &&& b@[5] == KEY_TUPLE_TAG
            &&& tuple_fine(b@, 6, t) && no_toast(b@, 6, t.len())
            &&& p < b@.len()
            &&& b@[p] == NEW_TUPLE_TAG
            &&& tuple_fine(b@, p + 1, t)
            &&& exists|i: int|
                0 <= i < t.len() && (#[trigger] update_new_spans(b@, t.len())[i]).0 == TOAST_TAG
                    && !s.unwrap().column_schemas@[i].identity
        }) ==> r matches Err(RowMessageError::MissingOldValue(_)),
        match r {
            Ok(CdcEvent::Insert { table_id, row }) => {
                &&& b@[0] == INSERT_TAG
                &&& table_id == field(b@, 1, 4)
                &&& b@[5] == NEW_TUPLE_TAG
                &&& latest_schema(cache.history(), table_id) matches Some(s)
                &&& row_of_tuple(b@, 6, column_types(s.column_schemas@), row.values@)
            },
            Ok(CdcEvent::Delete { table_id, old_row }) => {
                &&& b@[0] == DELETE_TAG
                &&& table_id == field(b@, 1, 4)
                &&& (b@[5] == KEY_TUPLE_TAG || b@[5] == OLD_TUPLE_TAG)
                &&& latest_schema(cache.history(), table_id) matches Some(s)
                &&& row_of_tuple(b@, 6, column_types(s.column_schemas@), old_row.values@)
            },
            Ok(CdcEvent::Update { table_id, old_row, new_row }) => {
                let cols = latest_schema(cache.history(), table_id).unwrap().column_schemas@;
                let t = column_types(cols);
                let has_old = b@[5] == KEY_TUPLE_TAG || b@[5] == OLD_TUPLE_TAG;
                let p = update_new_at(b@, t.len());
                let nsp = update_new_spans(b@, t.len());
                let osp = spans(b@, 8, t.len()).unwrap();
                &&& b@[0] == UPDATE_TAG
                &&& table_id == field(b@, 1, 4)
                &&& latest_schema(cache.history(), table_id) is Some
                &&& has_old <==> old_row is Some
                &&& old_row matches Some(o) ==> row_of_tuple(b@, 6, t, o.values@)
                &&& b@[p] == NEW_TUPLE_TAG
                &&& spans(b@, p + 3, t.len()) is Some
                &&& new_row.values@.len() == t.len()
                &&& forall|i: int|
                    0 <= i < t.len() ==> if nsp[i].0 == TOAST_TAG {
                        &&& has_old
                        &&& b@[5] == KEY_TUPLE_TAG ==> cols[i].identity
                        &&& column_ok(b@, t[i], osp[i], TupleValue::Value(#[trigger] new_row.values@[i]))
                    } else {
                        column_ok(b@, t[i], nsp[i], TupleValue::Value(new_row.values@[i]))
                    }
            },
            Ok(_) => false,
            Err(_) => true,
        },
{
    let len = b.len();
    if len == 0 {
        return Err(RowMessageError::Malformed);
    }
    let tag = b[0];
    if tag != INSERT_TAG && tag != UPDATE_TAG && tag != DELETE_TAG {
        return Err(RowMessageError::UnsupportedMessage(tag));
    }
    if len < 5 {
        return Err(RowMessageError::Malformed);
    }
    let id = read_be(b, 1, 4);
    proof {
        crate::wire::lemma_field_bound(b@, 1, 4);
        crate::wire::lemma_pow256_8();
    }
    let table_id = id as u32;
    let schema = match cache.schema_for(table_id) {
        Some(s) => s,
        None => {
            return Err(RowMessageError::UnknownTable(table_id));
        },
    };
    let types = types_of(&schema.column_schemas);
    if len < 6 {
        return Err(RowMessageError::Malformed);
    }
    let part = b[5];
    if tag == INSERT_TAG {
        if part != NEW_TUPLE_TAG {
            return Err(RowMessageError::Malformed);
        }
        let (row, _) = tuple_row(b, 6, &types)?;
        Ok(CdcEvent::Insert { table_id, row })
    } else if tag == DELETE_TAG {
        if part != KEY_TUPLE_TAG && part != OLD_TUPLE_TAG {
            return Err(RowMessageError::Malformed);
        }
        let (old_row, _) = tuple_row(b, 6, &types)?;
        Ok(CdcEvent::Delete { table_id, old_row })
    } else {
        let mut p: usize = 5;
        let mut old_row: Option<TableRow> = None;
        let mut merge_old: Option<TableRow> = None;
        if part == KEY_TUPLE_TAG || part == OLD_TUPLE_TAG {
            let (old, end) = tuple_row(b, 6, &types)?;
            let (again, _) = tuple_row(b, 6, &types)?;
            old_row = Some(old);
            merge_old = Some(again);
            p = end;
        }
        let ghost has_old = part == KEY_TUPLE_TAG || part == OLD_TUPLE_TAG;
        assert(merge_old is Some <==> has_old);
        if p >= len || b[p] != NEW_TUPLE_TAG {
            return Err(RowMessageError::Malformed);
        }
        let vals = match decode_tuple(b, p + 1, types.as_slice()) {
            Ok((vals, _)) => vals,
            Err(e) => {
                return Err(RowMessageError::Tuple(e));
            },
        };
        let ghost vs = vals@;
        let ghost nsp = spans(b@, p + 3, types@.len()).unwrap();
        assert(p == update_new_at(b@, types@.len()));
        assert(nsp == update_new_spans(b@, types@.len()));
        let ghost mold = old_cells(merge_old);
        let is_key = part == KEY_TUPLE_TAG;
        let ghost cols = schema.column_schemas@;
        match merge_unchanged_toast(vals, merge_old, is_key, schema.column_schemas.as_slice()) {
            Ok(new_row) => {
                proof {
                    let osp = spans(b@, 8, types@.len()).unwrap();
                    assert forall|i: int| 0 <= i < types@.len() implies if nsp[i].0 == TOAST_TAG {
                        &&& has_old
                        &&& part == KEY_TUPLE_TAG ==> cols[i].identity
                        &&& column_ok(b@, types@[i], osp[i], TupleValue::Value(#[trigger] new_row.values@[i]))
                    } else {
                        column_ok(b@, types@[i], nsp[i], TupleValue::Value(new_row.values@[i]))
                    } by {
                        assert(column_ok(b@, types@[i], nsp[i], vs[i]));
                        assert(crate::engine::fillable(vs, mold, is_key, cols, i));
                        assert(new_row.values@[i] == merged_cell(vs, mold, i));
                    }
                    if is_key && exists|i: int|
                        0 <= i < types@.len() && (#[trigger] update_new_spans(b@, types@.len())[i]).0 == TOAST_TAG && !cols[i].identity {
                        let i = choose|i: int|
                            0 <= i < types@.len() && (#[trigger] update_new_spans(b@, types@.len())[i]).0 == TOAST_TAG
                                && !cols[i].identity;
                        assert(column_ok(b@, types@[i], nsp[i], vs[i]));
                        assert(crate::engine::fillable(vs, mold, is_key, cols, i));
                    }
                }
                Ok(CdcEvent::Update { table_id, old_row, new_row })
            },
            Err(ToastError::MissingOldValue(i)) => {
                proof {
                    assert(column_ok(b@, types@[i as int], nsp[i as int], vs[i as int]));
                    assert(nsp[i as int].0 == TOAST_TAG);
                    assert(update_new_spans(b@, types@.len())[i as int] == nsp[i as int]);
                    assert(types@.len() == cols.len());
                }
                Err(RowMessageError::MissingOldValue(i))
            },
        }
    }
}

} // verus!
