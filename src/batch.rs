//! The pipeline engine's batching of change events and its acknowledgement
//! of durable log positions. The engine's loop feeds events and clock ticks
//! in, hands flushed batches to the sink, and reports what the sink made
//! durable; the decisions are taken here.
use vstd::prelude::*;
use crate::model::{CdcEvent, Lsn};

verus! {

/// Limits on a batch: at most `max_size` events (a transaction is never
/// split), buffered for at most `max_fill_ms` milliseconds; 0 turns the age
/// limit off.
#[derive(Clone, Copy, Debug, PartialEq, Eq, Structural)]
pub struct BatchConfig {
    pub max_size: usize,
    pub max_fill_ms: u64,
}

/// Whether a transaction is open at the end of `events`.
pub open spec fn txn_open(events: Seq<CdcEvent>) -> bool
    decreases events.len(),
{
    if events.len() == 0 {
        false
    } else {
        match events.last() {
            CdcEvent::Begin { .. } => true,
            CdcEvent::Commit { .. } => false,
            _ => txn_open(events.drop_last()),
        }
    }
}

pub open spec fn is_truncate(e: CdcEvent) -> bool {
    e is Truncate
}

/// A buffer is flushed when no transaction is open in it and it is full or a
/// flush has been asked for.
pub open spec fn flush_due(events: Seq<CdcEvent>, max_size: usize, forced: bool) -> bool {
    events.len() > 0 && !txn_open(events) && (events.len() >= max_size || forced)
}

/// The durable position after the sink reports `ack`: it never moves back.
pub open spec fn next_durable(durable: Lsn, ack: Option<Lsn>) -> Lsn {
    match ack {
        Some(l) => if l > durable {
            l
        } else {
            durable
        },
        None => durable,
    }
}

/// The durable position after a sequence of sink reports.
pub open spec fn durable_after(start: Lsn, acks: Seq<Option<Lsn>>) -> Lsn
    decreases acks.len(),
{
    if acks.len() == 0 {
        start
    } else {
        next_durable(durable_after(start, acks.drop_last()), acks.last())
    }
}

/// What the engine does after an event arrives.
#[derive(Debug)]
pub enum Step {
    /// Nothing to do yet.
    Wait,
    /// Hand these events to the sink, in this order.
    Flush(Vec<CdcEvent>),
    /// Send a status update carrying this position.
    Reply(Lsn),
}

/// Buffered events and the durable log position.
pub struct Batcher {
    config: BatchConfig,
    events: Vec<CdcEvent>,
    in_transaction: bool,
    flush_requested: bool,
    first_at_ms: u64,
    durable_lsn: Lsn,
    acked: Ghost<Set<Lsn>>,
    received: Ghost<Seq<CdcEvent>>,
    flushed: Ghost<Seq<CdcEvent>>,
}

impl Batcher {
    pub closed spec fn spec_config(&self) -> BatchConfig {
        self.config
    }

    pub closed spec fn buffered(&self) -> Seq<CdcEvent> {
        self.events@
    }

    pub closed spec fn forced(&self) -> bool {
        self.flush_requested
    }

    pub closed spec fn durable(&self) -> Lsn {
        self.durable_lsn
    }

    pub closed spec fn oldest_at(&self) -> u64 {
        self.first_at_ms
    }

    /// Positions the sink has reported durable.
    pub closed spec fn acknowledged(&self) -> Set<Lsn> {
        self.acked@
    }

    /// Every event taken in so far, keepalives aside, in arrival order.
    pub closed spec fn received(&self) -> Seq<CdcEvent> {
        self.received@
    }

    /// The events of every batch handed out so far, in order.
    pub closed spec fn flushed(&self) -> Seq<CdcEvent> {
        self.flushed@
    }

    pub closed spec fn wf(&self) -> bool {
        &&& self.config.max_size > 0
        &&& self.in_transaction == txn_open(self.events@)
        &&& self.flushed@ + self.events@ == self.received@
    }

    /// A batcher that resumes from `resume_lsn`, the position the sink
    /// reported durable before a restart.
    pub fn new(config: BatchConfig, resume_lsn: Lsn) -> (r: Batcher)
        requires
            config.max_size > 0,
        ensures
            r.wf(),
            r.spec_config() == config,
            r.buffered().len() == 0,
            !r.forced(),
            r.durable() == resume_lsn,
            r.acknowledged() == Set::<Lsn>::empty().insert(resume_lsn),
            r.received().len() == 0,
            r.flushed().len() == 0,
    {
        Batcher {
            config,
            events: Vec::new(),
            in_transaction: false,
            flush_requested: false,
            first_at_ms: 0,
            durable_lsn: resume_lsn,
            acked: Ghost(Set::empty().insert(resume_lsn)),
            received: Ghost(Seq::empty()),
            flushed: Ghost(Seq::empty()),
        }
    }

    /// The last durable position.
    pub fn durable_lsn(&self) -> (r: Lsn)
        ensures
            r == self.durable(),
    {
        self.durable_lsn
    }

    /// Number of buffered events.
    pub fn len(&self) -> (r: usize)
        ensures
            r == self.buffered().len(),
    {
        self.events.len()
    }

    fn take(&mut self) -> (r: Vec<CdcEvent>)
        ensures
            r@ == old(self).buffered(),
            final(self).buffered().len() == 0,
            !final(self).forced(),
            final(self).spec_config() == old(self).spec_config(),
            final(self).durable() == old(self).durable(),
            final(self).acknowledged() == old(self).acknowledged(),
            final(self).received() == old(self).received(),
            final(self).flushed() == old(self).flushed() + old(self).buffered(),
            old(self).wf() && !txn_open(old(self).buffered()) ==> final(self).wf(),
    {
        let mut r = Vec::new();
        std::mem::swap(&mut r, &mut self.events);
        self.flush_requested = false;
        self.flushed = Ghost(self.flushed@ + r@);
        proof {
            assert(self.events@ =~= Seq::<CdcEvent>::empty());
            assert(self.flushed@ + self.events@ =~= old(self).flushed@ + old(self).events@);
        }
        r
    }

    /// Takes in one event that arrived at `now_ms`. A keepalive that asks for
    /// a reply is answered at once with the durable position, never with a
    /// position only received; other keepalives are dropped. Any other event
    /// is buffered, and the buffer is flushed when `flush_due` holds: a
    /// truncate asks for a flush at the end of its transaction.
    pub fn push(&mut self, event: CdcEvent, now_ms: u64) -> (r: Step)
        requires
            old(self).wf(),
            old(self).buffered().len() < usize::MAX,
        ensures
            final(self).wf(),
            final(self).spec_config() == old(self).spec_config(),
            final(self).durable() == old(self).durable(),
            final(self).acknowledged() == old(self).acknowledged(),
            final(self).received() == (if event is KeepAliveRequested {
                old(self).received()
            } else {
                old(self).received().push(event)
            }),
            match event {
                CdcEvent::KeepAliveRequested { reply_requested, .. } => {
                    &&& final(self).buffered() == old(self).buffered()
                    &&& final(self).forced() == old(self).forced()
                    &&& r == (if reply_requested {
                        Step::Reply(old(self).durable())
                    } else {
                        Step::Wait
                    })
                },
                _ => {
                    let all = old(self).buffered().push(event);
                    let forced = old(self).forced() || is_truncate(event);
                    if flush_due(all, old(self).spec_config().max_size, forced) {
                        &&& r matches Step::Flush(b)
                        &&& b@ == all
                        &&& final(self).buffered().len() == 0
                        &&& !final(self).forced()
                    } else {
                        &&& r == Step::Wait
                        &&& final(self).buffered() == all
                        &&& final(self).forced() == forced
                        &&& old(self).buffered().len() > 0 ==> final(self).oldest_at()
                            == old(self).oldest_at()
                        &&& old(self).buffered().len() == 0 ==> final(self).oldest_at() == now_ms
                    }
                },
            },
    {
        match event {
            CdcEvent::KeepAliveRequested { reply_requested, .. } => {
                if reply_requested {
                    Step::Reply(self.durable_lsn)
                } else {
                    Step::Wait
                }
            },
            _ => {
                let ghost all = self.events@.push(event);
                let was_empty = self.events.len() == 0;
                match event {
                    CdcEvent::Begin { .. } => {
                        self.in_transaction = true;
                    },
                    CdcEvent::Commit { .. } => {
                        self.in_transaction = false;
                    },
                    CdcEvent::Truncate { .. } => {
                        self.flush_requested = true;
                    },
                    _ => {},
                }
                self.events.push(event);
                self.received = Ghost(self.received@.push(event));
                assert(self.events@.drop_last() =~= old(self).events@);
                assert(self.flushed@ + self.events@ =~= self.received@);
                if was_empty {
                    self.first_at_ms = now_ms;
                }
                if !self.in_transaction && (self.events.len() >= self.config.max_size
                    || self.flush_requested) {
                    Step::Flush(self.take())
                } else {
                    Step::Wait
                }
            },
        }
    }

    /// Called as the clock reaches `now_ms`: flushes the buffer when its
    /// oldest event has waited `max_fill_ms` and no transaction is open. With
    /// `max_fill_ms` 0 it never flushes.
    pub fn tick(&mut self, now_ms: u64) -> (r: Option<Vec<CdcEvent>>)
        requires
            old(self).wf(),
        ensures
            final(self).received() == old(self).received(),
            final(self).wf(),
            final(self).spec_config() == old(self).spec_config(),
            final(self).durable() == old(self).durable(),
            final(self).acknowledged() == old(self).acknowledged(),
            ({
                let c = old(self).spec_config();
                let b = old(self).buffered();
                let due = c.max_fill_ms > 0 && b.len() > 0 && !txn_open(b) && now_ms
                    >= old(self).oldest_at() && now_ms - old(self).oldest_at() >= c.max_fill_ms;
                if due {
                    &&& r matches Some(batch)
                    &&& batch@ == b
                    &&& final(self).buffered().len() == 0
                } else {
                    &&& r is None
                    &&& final(self).buffered() == b
                    &&& final(self).forced() == old(self).forced()
                    &&& final(self).oldest_at() == old(self).oldest_at()
                }
            }),
    {
        if self.config.max_fill_ms > 0 && self.events.len() > 0 && !self.in_transaction && now_ms
            >= self.first_at_ms && now_ms - self.first_at_ms >= self.config.max_fill_ms {
            Some(self.take())
        } else {
            None
        }
    }

    /// At shutdown: the buffered events when no transaction is open in them.
    /// A transaction still open is dropped with the batcher; its events come
    /// again after a restart from the durable position.
    pub fn drain(&mut self) -> (r: Option<Vec<CdcEvent>>)
        requires
            old(self).wf(),
        ensures
            final(self).received() == old(self).received(),
            final(self).wf(),
            final(self).durable() == old(self).durable(),
            final(self).acknowledged() == old(self).acknowledged(),
            if old(self).buffered().len() > 0 && !txn_open(old(self).buffered()) {
                &&& r matches Some(batch)
                &&& batch@ == old(self).buffered()
                &&& final(self).buffered().len() == 0
            } else {
                &&& r is None
                &&& final(self).buffered() == old(self).buffered()
            },
    {
        if self.events.len() > 0 && !self.in_transaction {
            Some(self.take())
        } else {
            None
        }
    }

    /// Records what the sink returned for a flushed batch: the end position of
    /// its last commit, or `None` when it held no commit. When the sink
    /// reported a position, returns the status update to send upstream,
    /// which carries the new durable position.
    pub fn acknowledge(&mut self, ack: Option<Lsn>) -> (r: Option<Lsn>)
        requires
            old(self).wf(),
        ensures
            final(self).flushed() == old(self).flushed(),
            final(self).received() == old(self).received(),
            final(self).wf(),
            final(self).buffered() == old(self).buffered(),
            final(self).forced() == old(self).forced(),
            final(self).oldest_at() == old(self).oldest_at(),
            final(self).spec_config() == old(self).spec_config(),
            final(self).durable() == next_durable(old(self).durable(), ack),
            final(self).acknowledged() == (match ack {
                Some(l) => old(self).acknowledged().insert(l),
                None => old(self).acknowledged(),
            }),
            r == (match ack {
                Some(_) => Some(final(self).durable()),
                None => None::<Lsn>,
            }),
    {
        match ack {
            Some(l) => {
                if l > self.durable_lsn {
                    self.durable_lsn = l;
                }
                self.acked = Ghost(self.acked@.insert(l));
                Some(self.durable_lsn)
            },
            None => None,
        }
    }
}

/// Status updates never go back: whatever the sink reports, in any order,
/// the durable position after a prefix of its reports is at most the one
/// after a longer prefix.
pub proof fn lemma_durable_monotone(start: Lsn, acks: Seq<Option<Lsn>>, i: int, j: int)
    requires
        0 <= i <= j <= acks.len(),
    ensures
        durable_after(start, acks.take(i)) <= durable_after(start, acks.take(j)),
    decreases j - i,
{
    if i < j {
        lemma_durable_monotone(start, acks, i, j - 1);
        assert(acks.take(j).drop_last() =~= acks.take(j - 1));
    }
}

/// Every position the engine acknowledges upstream is one the sink reported
/// durable, or the position it resumed from: the durable position after any
/// sequence of reports is among them.
pub proof fn lemma_durable_was_reported(start: Lsn, acks: Seq<Option<Lsn>>)
    ensures
        durable_after(start, acks) == start || exists|k: int|
            0 <= k < acks.len() && acks[k] == Some(durable_after(start, acks)),
    decreases acks.len(),
{
    if acks.len() > 0 {
        let prev = acks.drop_last();
        lemma_durable_was_reported(start, prev);
        let d = durable_after(start, prev);
        if durable_after(start, acks) != d {
            assert(acks[acks.len() - 1] == Some(durable_after(start, acks)));
        } else if d != start {
            let k = choose|k: int| 0 <= k < prev.len() && prev[k] == Some(d);
            assert(acks[k] == prev[k]);
        }
    }
}

/// With batches of one event, every event outside a transaction is flushed
/// at once and events inside one wait for its commit.
pub proof fn lemma_unit_batches(events: Seq<CdcEvent>, forced: bool)
    requires
        events.len() > 0,
    ensures
        flush_due(events, 1, forced) == !txn_open(events),
{
}

/// A flushed batch never ends inside a transaction.
pub proof fn lemma_flushed_batches_close_transactions(
    events: Seq<CdcEvent>,
    max_size: usize,
    forced: bool,
)
    requires
        flush_due(events, max_size, forced),
    ensures
        !txn_open(events),
{
}

/// Events reach the sink in the order they arrived: what has been handed
/// out, followed by what is still buffered, is everything taken in. So a
/// truncate reaches the sink before any later insert into its table.
pub proof fn lemma_arrival_order_kept(b: Batcher)
    requires
        b.wf(),
    ensures
        b.flushed() + b.buffered() == b.received(),
{
}

} // verus!
