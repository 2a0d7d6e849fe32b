//! Decisions of the pipeline engine outside batching: which tables to copy on
//! start, where the change stream opens, how an update with unchanged toasted
//! columns is completed, what a status update carries, and which schema a row
//! event is read under.
use vstd::prelude::*;
use crate::model::{Cell, ColumnSchema, Lsn, PipelineAction, TableId, TableRow, TableSchema};

verus! {

/// Tables of `ids` that are not in `copied`, in order.
pub open spec fn not_copied(ids: Seq<TableId>, copied: Seq<TableId>) -> Seq<TableId>
    decreases ids.len(),
{
    if ids.len() == 0 {
        seq![]
    } else {
        not_copied(ids.drop_last(), copied) + (if copied.contains(ids.last()) {
            seq![]
        } else {
            seq![ids.last()]
        })
    }
}

fn contains_id(ids: &Vec<TableId>, id: TableId) -> (r: bool)
    ensures
        r == ids@.contains(id),
{
    let mut i: usize = 0;
    while i < ids.len()
        invariant
            0 <= i <= ids@.len(),
            forall|j: int| 0 <= j < i ==> ids@[j] != id,
        decreases ids@.len() - i,
    {
        if ids[i] == id {
            return true;
        }
        i += 1;
    }
    false
}

/// The tables to copy on start: those of the schema bulletin that the sink
/// has not recorded as copied.
pub fn tables_to_copy(table_ids: &Vec<TableId>, copied: &Vec<TableId>) -> (r: Vec<TableId>)
    ensures
        r@ == not_copied(table_ids@, copied@),
{
    let mut r: Vec<TableId> = Vec::new();
    let mut i: usize = 0;
    while i < table_ids.len()
        invariant
            0 <= i <= table_ids@.len(),
            r@ == not_copied(table_ids@.subrange(0, i as int), copied@),
        decreases table_ids@.len() - i,
    {
        let id = table_ids[i];
        assert(table_ids@.subrange(0, i + 1).drop_last() =~= table_ids@.subrange(0, i as int));
        if !contains_id(copied, id) {
            r.push(id);
        }
        assert(r@ =~= not_copied(table_ids@.subrange(0, i + 1), copied@));
        i += 1;
    }
    assert(table_ids@.subrange(0, table_ids@.len() as int) =~= table_ids@);
    r
}

/// A table is copied on start exactly when the sink has not recorded it.
pub proof fn lemma_not_copied_members(ids: Seq<TableId>, copied: Seq<TableId>, t: TableId)
    ensures
        not_copied(ids, copied).contains(t) <==> (ids.contains(t) && !copied.contains(t)),
    decreases ids.len(),
{
    if ids.len() > 0 {
        let prev = ids.drop_last();
        lemma_not_copied_members(prev, copied, t);
        if ids.contains(t) && t != ids.last() {
            let k = choose|k: int| 0 <= k < ids.len() && ids[k] == t;
            assert(prev[k] == t);
        }
        if prev.contains(t) {
            let k = choose|k: int| 0 <= k < prev.len() && prev[k] == t;
            assert(ids[k] == t);
        }
        let tail: Seq<TableId> = if copied.contains(ids.last()) {
            seq![]
        } else {
            seq![ids.last()]
        };
        let p = not_copied(prev, copied);
        if (p + tail).contains(t) {
            let k = choose|k: int| 0 <= k < (p + tail).len() && (p + tail)[k] == t;
            if k < p.len() {
                assert(p[k] == t);
            }
        }
        if p.contains(t) {
            let k = choose|k: int| 0 <= k < p.len() && p[k] == t;
            assert((p + tail)[k] == t);
        }
        if tail.contains(t) {
            assert((p + tail)[p.len() as int] == t);
        }
        assert(ids[ids.len() - 1] == ids.last());
    }
}

/// Where the change stream opens: at the resumption position, or at the
/// replication slot's restart position when that is later.
pub fn stream_start_lsn(resume_lsn: Lsn, slot_restart_lsn: Lsn) -> (r: Lsn)
    ensures
        r >= resume_lsn,
        r >= slot_restart_lsn,
        r == resume_lsn || r == slot_restart_lsn,
{
    if resume_lsn >= slot_restart_lsn {
        resume_lsn
    } else {
        slot_restart_lsn
    }
}

/// The three positions of a standby status update.
#[derive(Clone, Copy, Debug, PartialEq, Eq, Structural)]
pub struct StatusUpdate {
    pub write_lsn: Lsn,
    pub flush_lsn: Lsn,
    pub apply_lsn: Lsn,
}

/// A status update reports the durable position as written, flushed and
/// applied.
pub fn status_update(durable_lsn: Lsn) -> (r: StatusUpdate)
    ensures
        r.write_lsn == durable_lsn,
        r.flush_lsn == durable_lsn,
        r.apply_lsn == durable_lsn,
{
    StatusUpdate { write_lsn: durable_lsn, flush_lsn: durable_lsn, apply_lsn: durable_lsn }
}

/// A column of a decoded tuple: a value, or the marker of a toasted value
/// that did not change and was not sent.
#[derive(Clone, Debug)]
pub enum TupleValue {
    Value(Cell),
    UnchangedToast,
}

/// An unchanged toasted column that the old row cannot supply.
#[derive(Clone, Copy, Debug, PartialEq, Eq, Structural)]
pub enum ToastError {
    MissingOldValue(usize),
}

/// Column `i` can be completed: it was sent, or the old row holds it. An old
/// row that holds only the replica identity (`old_is_key`) holds only the
/// identity columns of `cols`; its other columns are null placeholders.
pub open spec fn fillable(
    new_values: Seq<TupleValue>,
    old_row: Option<Seq<Cell>>,
    old_is_key: bool,
    cols: Seq<ColumnSchema>,
    i: int,
) -> bool {
    match new_values[i] {
        TupleValue::Value(_) => true,
        TupleValue::UnchangedToast => {
            &&& old_row is Some
            &&& i < old_row.unwrap().len()
            &&& old_is_key ==> i < cols.len() && cols[i].identity
        },
    }
}

pub open spec fn merged_cell(new_values: Seq<TupleValue>, old_row: Option<Seq<Cell>>, i: int) -> Cell {
    match new_values[i] {
        TupleValue::Value(c) => c,
        TupleValue::UnchangedToast => old_row.unwrap()[i],
    }
}

pub open spec fn old_cells(old_row: Option<TableRow>) -> Option<Seq<Cell>> {
    match old_row {
        Some(r) => Some(r.values@),
        None => None,
    }
}

/// Completes the new row of an update: each unchanged toasted column takes
/// the old row's value. Fails at the first such column the old row does not
/// hold: there is no old row, it is too short, or it holds only the replica
/// identity (`old_is_key`) and the column is not part of it.
pub fn merge_unchanged_toast(
    new_values: Vec<TupleValue>,
    old_row: Option<TableRow>,
    old_is_key: bool,
    column_schemas: &[ColumnSchema],
) -> (r: Result<
    TableRow,
    ToastError,
>)
    ensures
        match r {
            Ok(row) => {
                &&& row.values@.len() == new_values@.len()
                &&& forall|i: int|
                    0 <= i < new_values@.len() ==> fillable(new_values@, old_cells(old_row), old_is_key, column_schemas@, i)
                &&& forall|i: int|
                    0 <= i < new_values@.len() ==> #[trigger] row.values@[i] == merged_cell(
                        new_values@,
                        old_cells(old_row),
                        i,
                    )
            },
            Err(ToastError::MissingOldValue(i)) => {
                &&& 0 <= i < new_values@.len()
                &&& !fillable(new_values@, old_cells(old_row), old_is_key, column_schemas@, i as int)
                &&& forall|j: int|
                    0 <= j < i ==> fillable(new_values@, old_cells(old_row), old_is_key, column_schemas@, j)
            },
        },
{
    let ghost olds = old_cells(old_row);
    let ghost news = new_values@;
    let ghost cols = column_schemas@;
    let n = new_values.len();
    let has_old = old_row.is_some();
    let old_len = match &old_row {
        Some(row) => row.values.len(),
        None => 0,
    };
    let mut i: usize = 0;
    while i < n
        invariant
            n == news.len(),
            news == new_values@,
            olds == old_cells(old_row),
            cols == column_schemas@,
            has_old == olds is Some,
            has_old ==> old_len == olds.unwrap().len(),
            0 <= i <= n,
            forall|j: int| 0 <= j < i ==> fillable(news, olds, old_is_key, column_schemas@, j),
        decreases n - i,
    {
        match &new_values[i] {
            TupleValue::Value(_) => {},
            TupleValue::UnchangedToast => {
                if !has_old || i >= old_len || (old_is_key && !(i < column_schemas.len()
                    && column_schemas[i].identity)) {
                    assert(news[i as int] is UnchangedToast);
                    assert(!fillable(news, olds, old_is_key, column_schemas@, i as int));
                    return Err(ToastError::MissingOldValue(i));
                }
            },
        }
        i += 1;
    }
    let mut old_values: Vec<Cell> = match old_row {
        Some(row) => row.values,
        None => Vec::new(),
    };
    if old_values.len() > n {
        old_values.truncate(n);
    }
    let mut rest = new_values;
    let mut out: Vec<Cell> = Vec::new();
    let mut k: usize = n;
    while k > 0
        invariant
            n == news.len(),
            0 <= k <= n,
            rest@ == news.subrange(0, k as int),
            has_old == olds is Some,
            has_old ==> old_values@ == olds.unwrap().subrange(
                0,
                if olds.unwrap().len() < k {
                    olds.unwrap().len() as int
                } else {
                    k as int
                },
            ),
            !has_old ==> old_values@.len() == 0,
            forall|j: int| 0 <= j < n ==> fillable(news, olds, old_is_key, cols, j),
            out@.len() == n - k,
            forall|j: int| k <= j < n ==> #[trigger] out@[j - k] == merged_cell(news, olds, j),
        decreases k,
    {
        let v = rest.pop().unwrap();
        let o = if old_values.len() == k {
            old_values.pop()
        } else {
            None
        };
        assert(fillable(news, olds, old_is_key, cols, k - 1));
        let ghost before = out@;
        let c = match v {
            TupleValue::Value(c) => c,
            TupleValue::UnchangedToast => o.unwrap(),
        };
        out.insert(0, c);
        assert forall|j: int| k - 1 <= j < n implies #[trigger] out@[j - (k - 1)] == merged_cell(
            news,
            olds,
            j,
        ) by {
            if j >= k {
                assert(out@[j - (k - 1)] == before[j - k]);
            }
        }
        k -= 1;
    }
    assert forall|j: int| 0 <= j < n implies #[trigger] out@[j] == merged_cell(news, olds, j) by {
        assert(out@[j - 0] == merged_cell(news, olds, j));
    }
    Ok(TableRow { values: out })
}

/// The schema a sequence of relation bulletins leaves for table `id`: the
/// latest bulletin for it.
pub open spec fn latest_schema(bulletins: Seq<TableSchema>, id: TableId) -> Option<TableSchema>
    decreases bulletins.len(),
{
    if bulletins.len() == 0 {
        None
    } else if bulletins.last().table_id == id {
        Some(bulletins.last())
    } else {
        latest_schema(bulletins.drop_last(), id)
    }
}

/// The schemas that relation bulletins have announced, by table.
pub struct SchemaCache {
    bulletins: Vec<TableSchema>,
}

impl SchemaCache {
    pub closed spec fn history(&self) -> Seq<TableSchema> {
        self.bulletins@
    }

    pub fn new() -> (r: SchemaCache)
        ensures
            r.history().len() == 0,
    {
        SchemaCache { bulletins: Vec::new() }
    }

    /// Records a relation bulletin; it replaces what was known of its table.
    pub fn apply_relation(&mut self, schema: TableSchema)
        ensures
            final(self).history() == old(self).history().push(schema),
            latest_schema(final(self).history(), schema.table_id) == Some(schema),
            forall|t: TableId|
                t != schema.table_id ==> latest_schema(final(self).history(), t) == latest_schema(
                    old(self).history(),
                    t,
                ),
    {
        let ghost h = self.bulletins@;
        self.bulletins.push(schema);
        assert(self.bulletins@.drop_last() =~= h);
    }

    /// The schema row events of table `id` are read under.
    pub fn schema_for(&self, id: TableId) -> (r: Option<&TableSchema>)
        ensures
            match r {
                Some(s) => latest_schema(self.history(), id) == Some(*s),
                None => latest_schema(self.history(), id) is None,
            },
    {
        let mut i: usize = self.bulletins.len();
        assert(self.bulletins@.subrange(0, i as int) =~= self.bulletins@);
        while i > 0
            invariant
                0 <= i <= self.bulletins@.len(),
                latest_schema(self.bulletins@, id) == latest_schema(
                    self.bulletins@.subrange(0, i as int),
                    id,
                ),
            decreases i,
        {
            let ghost pre = self.bulletins@.subrange(0, i as int);
            assert(pre.drop_last() =~= self.bulletins@.subrange(0, i - 1));
            if self.bulletins[i - 1].table_id == id {
                return Some(&self.bulletins[i - 1]);
            }
            i -= 1;
        }
        assert(self.bulletins@.subrange(0, 0) =~= Seq::<TableSchema>::empty());
        None
    }
}

/// A row event is read under the most recent bulletin for its table that
/// precedes it: bulletin `k` for table `id` decides as long as no later one is
/// for `id`.
pub proof fn lemma_latest_bulletin_decides(bulletins: Seq<TableSchema>, id: TableId, k: int)
    requires
        0 <= k < bulletins.len(),
        bulletins[k].table_id == id,
        forall|j: int| k < j < bulletins.len() ==> (#[trigger] bulletins[j]).table_id != id,
    ensures
        latest_schema(bulletins, id) == Some(bulletins[k]),
    decreases bulletins.len(),
{
    if k < bulletins.len() - 1 {
        let prev = bulletins.drop_last();
        assert(bulletins[bulletins.len() - 1].table_id != id);
        assert forall|j: int| k < j < prev.len() implies (#[trigger] prev[j]).table_id != id by {
            assert(prev[j] == bulletins[j]);
        }
        lemma_latest_bulletin_decides(prev, id, k);
    }
}

/// Phases of the source adapter.
#[derive(Clone, Copy, Debug, PartialEq, Eq, Structural)]
pub enum SourcePhase {
    Idle,
    Snapshotting,
    Snapshotted,
    Streaming,
    Closed,
}

/// What moves the source adapter on.
#[derive(Clone, Copy, Debug, PartialEq, Eq, Structural)]
pub enum PhaseEvent {
    /// The pipeline starts.
    Start,
    /// Every requested table has been copied.
    CopiesDrained,
    /// The copy transaction has been committed.
    CopyCommitted,
    /// Shutdown was asked for, or the stream failed.
    Stop,
}

/// A transition the source adapter does not make.
#[derive(Clone, Copy, Debug, PartialEq, Eq, Structural)]
pub struct StateError {
    pub phase: SourcePhase,
    pub event: PhaseEvent,
}

pub open spec fn copies(action: PipelineAction) -> bool {
    action == PipelineAction::TableCopiesOnly || action == PipelineAction::Both
}

pub open spec fn streams(action: PipelineAction) -> bool {
    action == PipelineAction::CdcOnly || action == PipelineAction::Both
}

/// The phase after `event`, or `None` when the adapter does not make that move.
pub open spec fn spec_next_phase(action: PipelineAction, phase: SourcePhase, event: PhaseEvent) -> Option<
    SourcePhase,
> {
    match (phase, event) {
        (SourcePhase::Idle, PhaseEvent::Start) => Some(
            if copies(action) {
                SourcePhase::Snapshotting
            } else {
                SourcePhase::Streaming
            },
        ),
        (SourcePhase::Snapshotting, PhaseEvent::CopiesDrained) => Some(SourcePhase::Snapshotted),
        (SourcePhase::Snapshotted, PhaseEvent::CopyCommitted) => Some(
            if streams(action) {
                SourcePhase::Streaming
            } else {
                SourcePhase::Closed
            },
        ),
        (SourcePhase::Streaming, PhaseEvent::Stop) => Some(SourcePhase::Closed),
        _ => None,
    }
}

/// Moves the source adapter on: copying comes first when the action asks
/// for copies, streaming follows when it asks for changes.
pub fn next_phase(action: PipelineAction, phase: SourcePhase, event: PhaseEvent) -> (r: Result<
    SourcePhase,
    StateError,
>)
    ensures
        match spec_next_phase(action, phase, event) {
            Some(p) => r == Ok::<SourcePhase, StateError>(p),
            None => r == Err::<SourcePhase, StateError>(StateError { phase, event }),
        },
{
    let copy = action == PipelineAction::TableCopiesOnly || action == PipelineAction::Both;
    let stream = action == PipelineAction::CdcOnly || action == PipelineAction::Both;
    match (phase, event) {
        (SourcePhase::Idle, PhaseEvent::Start) => Ok(
            if copy {
                SourcePhase::Snapshotting
            } else {
                SourcePhase::Streaming
            },
        ),
        (SourcePhase::Snapshotting, PhaseEvent::CopiesDrained) => Ok(SourcePhase::Snapshotted),
        (SourcePhase::Snapshotted, PhaseEvent::CopyCommitted) => Ok(
            if stream {
                SourcePhase::Streaming
            } else {
                SourcePhase::Closed
            },
        ),
        (SourcePhase::Streaming, PhaseEvent::Stop) => Ok(SourcePhase::Closed),
        _ => Err(StateError { phase, event }),
    }
}

} // verus!
