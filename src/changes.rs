//! Shaping change events into rows for a sink that streams structured rows:
//! each row carries a trailing `_CHANGE_TYPE` string, `UPSERT` for inserts
//! and updates and `DELETE` for deletes; a deleted row keeps only its
//! identity columns.
use vstd::prelude::*;
use crate::model::{CdcEvent, Cell, ColumnSchema, TableId, TableRow};

verus! {

pub open spec fn upsert_text() -> Seq<char> {
    "UPSERT"@
}

pub open spec fn delete_text() -> Seq<char> {
    "DELETE"@
}

/// `row` is `cells` followed by the change type `kind`.
pub open spec fn tagged(row: Seq<Cell>, cells: Seq<Cell>, kind: Seq<char>) -> bool {
    &&& row.len() == cells.len() + 1
    &&& row.subrange(0, cells.len() as int) == cells
    &&& row[cells.len() as int] matches Cell::String(s)
    &&& s@ == kind
}

/// The cell a deleted row keeps at `i`: identity columns keep their value,
/// the others become null.
pub open spec fn delete_cell(cols: Seq<ColumnSchema>, cells: Seq<Cell>, i: int) -> Cell {
    if i < cols.len() && cols[i].identity {
        cells[i]
    } else {
        Cell::Null
    }
}

/// The row a sink receives for an insert, update or delete of `event`, with
/// the table it belongs to; `None` for any other event. `column_schemas` are
/// the columns of that table.
pub fn change_row(event: CdcEvent, column_schemas: &[ColumnSchema]) -> (r: Option<(TableId, TableRow)>)
    ensures
        match event {
            CdcEvent::Insert { table_id, row } => {
                &&& r matches Some((t, out))
                &&& t == table_id
                &&& tagged(out.values@, row.values@, upsert_text())
            },
            CdcEvent::Update { table_id, new_row, .. } => {
                &&& r matches Some((t, out))
                &&& t == table_id
                &&& tagged(out.values@, new_row.values@, upsert_text())
            },
            CdcEvent::Delete { table_id, old_row } => {
                &&& r matches Some((t, out))
                &&& t == table_id
                &&& out.values@.len() == old_row.values@.len() + 1
                &&& forall|i: int|
                    0 <= i < old_row.values@.len() ==> #[trigger] out.values@[i] == delete_cell(
                        column_schemas@,
                        old_row.values@,
                        i,
                    )
                &&& out.values@[old_row.values@.len() as int] matches Cell::String(s)
                &&& s@ == delete_text()
            },
            _ => r is None,
        },
{
    match event {
        CdcEvent::Insert { table_id, row } => {
            let mut values = row.values;
            let ghost cells = values@;
            values.push(Cell::String(String::from_str("UPSERT")));
            assert(values@.subrange(0, cells.len() as int) =~= cells);
            Some((table_id, TableRow { values }))
        },
        CdcEvent::Update { table_id, new_row, .. } => {
            let mut values = new_row.values;
            let ghost cells = values@;
            values.push(Cell::String(String::from_str("UPSERT")));
            assert(values@.subrange(0, cells.len() as int) =~= cells);
            Some((table_id, TableRow { values }))
        },
        CdcEvent::Delete { table_id, old_row } => {
            let mut values = old_row.values;
            let ghost cells = values@;
            let n = values.len();
            let mut i: usize = 0;
            while i < n
                invariant
                    n == cells.len(),
                    values@.len() == n,
                    0 <= i <= n,
                    forall|j: int|
                        0 <= j < i ==> #[trigger] values@[j] == delete_cell(
                            column_schemas@,
                            cells,
                            j,
                        ),
                    forall|j: int| i <= j < n ==> #[trigger] values@[j] == cells[j],
                decreases n - i,
            {
                if !(i < column_schemas.len() && column_schemas[i].identity) {
                    values.set(i, Cell::Null);
                }
                i += 1;
            }
            values.push(Cell::String(String::from_str("DELETE")));
            Some((table_id, TableRow { values }))
        },
        _ => None,
    }
}

} // verus!
