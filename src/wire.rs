//! Decoding of the replication protocol's framing (`XLogData`, primary
//! keepalive) and of the transaction-boundary and truncate messages of the
//! logical-replication stream. Integers are big-endian.
use vstd::prelude::*;
use crate::model::{CdcEvent, Lsn, TableId};

verus! {

/// Why a message could not be decoded.
#[derive(Clone, Copy, Debug, PartialEq, Eq, Structural)]
pub enum DecodeError {
    /// The message ends before its fields do.
    Truncated,
    /// The message's tag is not one this decoder reads.
    UnsupportedMessage(u8),
}

/// The unsigned big-endian value of `b`.
pub open spec fn be(b: Seq<u8>) -> nat
    decreases b.len(),
{
    if b.len() == 0 {
        0
    } else {
        be(b.drop_last()) * 256 + b.last() as nat
    }
}

pub open spec fn pow256(n: nat) -> nat
    decreases n,
{
    if n == 0 {
        1
    } else {
        pow256((n - 1) as nat) * 256
    }
}

/// The field of `n` bytes at `off`.
pub open spec fn field(b: Seq<u8>, off: int, n: int) -> nat {
    be(b.subrange(off, off + n))
}

/// A 64-bit field read as two's complement.
pub open spec fn signed64(v: nat) -> int {
    if v >= 0x8000_0000_0000_0000 {
        v - 0x1_0000_0000_0000_0000
    } else {
        v as int
    }
}

pub(crate) proof fn lemma_pow256_8()
    ensures
        pow256(8) == 0x1_0000_0000_0000_0000,
        pow256(4) == 0x1_0000_0000,
        pow256(1) == 256,
{
    reveal_with_fuel(pow256, 9);
}

/// Reads the `n`-byte big-endian field at `off`.
pub(crate) fn read_be(b: &[u8], off: usize, n: usize) -> (r: u64)
    requires
        n <= 8,
        off + n <= b@.len(),
    ensures
        r == field(b@, off as int, n as int),
{
    let len = b.len();
    let mut acc: u64 = 0;
    let mut i: usize = 0;
    while i < n
        invariant
            len == b@.len(),
            n <= 8,
            off + n <= b@.len(),
            0 <= i <= n,
            acc == be(b@.subrange(off as int, off + i)),
            acc < pow256(i as nat),
        decreases n - i,
    {
        assert(off + i < b@.len());
        let x = b[off + i];
        let ghost p = pow256(i as nat);
        assert(b@.subrange(off as int, off + i + 1).drop_last() =~= b@.subrange(off as int, off + i));
        assert(acc * 256 + x < p * 256) by (nonlinear_arith)
            requires
                acc < p,
                x < 256,
        {
        }
        proof {
            lemma_pow256_bound(i as nat);
            lemma_pow256_8();
        }
        acc = acc * 256 + x as u64;
        i += 1;
    }
    acc
}

proof fn lemma_pow256_bound(i: nat)
    requires
        i < 8,
    ensures
        pow256(i) * 256 <= 0x1_0000_0000_0000_0000,
    decreases i,
{
    reveal_with_fuel(pow256, 9);
    assert(i == 0 || i == 1 || i == 2 || i == 3 || i == 4 || i == 5 || i == 6 || i == 7);
}

fn read_i64(b: &[u8], off: usize) -> (r: i64)
    requires
        off + 8 <= b@.len(),
    ensures
        r == signed64(field(b@, off as int, 8)),
{
    let v = read_be(b, off, 8);
    if v >= 0x8000_0000_0000_0000u64 {
        (v as i128 - 0x1_0000_0000_0000_0000i128) as i64
    } else {
        v as i64
    }
}

/// A message of the replication stream.
#[derive(Clone, Debug)]
pub enum ReplicationMessage {
    XLogData { wal_start: Lsn, wal_end: Lsn, send_time: i64, data: Vec<u8> },
    PrimaryKeepalive { wal_end: Lsn, timestamp: i64, reply_requested: bool },
}

pub const XLOG_DATA_TAG: u8 = 119;

pub const KEEPALIVE_TAG: u8 = 107;

/// Decodes one replication message: `w` carries a log payload after its
/// start, end and send time; `k` is a keepalive with the server's log end,
/// its clock and whether it wants a reply.
pub fn decode_replication_message(b: &[u8]) -> (r: Result<ReplicationMessage, DecodeError>)
    ensures
        b@.len() == 0 ==> r == Err::<ReplicationMessage, DecodeError>(DecodeError::Truncated),
        b@.len() > 0 && b@[0] == XLOG_DATA_TAG ==> if b@.len() < 25 {
            r == Err::<ReplicationMessage, DecodeError>(DecodeError::Truncated)
        } else {
            &&& r matches Ok(ReplicationMessage::XLogData { wal_start, wal_end, send_time, data })
            &&& wal_start == field(b@, 1, 8)
            &&& wal_end == field(b@, 9, 8)
            &&& send_time == signed64(field(b@, 17, 8))
            &&& data@ == b@.subrange(25, b@.len() as int)
        },
        b@.len() > 0 && b@[0] == KEEPALIVE_TAG ==> if b@.len() < 18 {
            r == Err::<ReplicationMessage, DecodeError>(DecodeError::Truncated)
        } else {
            r == Ok::<ReplicationMessage, DecodeError>(
                ReplicationMessage::PrimaryKeepalive {
                    wal_end: field(b@, 1, 8) as u64,
                    timestamp: signed64(field(b@, 9, 8)) as i64,
                    reply_requested: b@[17] != 0,
                },
            )
        },
        b@.len() > 0 && b@[0] != XLOG_DATA_TAG && b@[0] != KEEPALIVE_TAG ==> r == Err::<
            ReplicationMessage,
            DecodeError,
        >(DecodeError::UnsupportedMessage(b@[0])),
{
    if b.len() == 0 {
        return Err(DecodeError::Truncated);
    }
    let tag = b[0];
    if tag == XLOG_DATA_TAG {
        if b.len() < 25 {
            return Err(DecodeError::Truncated);
        }
        let wal_start = read_be(b, 1, 8);
        let wal_end = read_be(b, 9, 8);
        let send_time = read_i64(b, 17);
        let mut data: Vec<u8> = Vec::new();
        let mut i: usize = 25;
        while i < b.len()
            invariant
                25 <= i <= b@.len(),
                data@ == b@.subrange(25, i as int),
            decreases b@.len() - i,
        {
            data.push(b[i]);
            assert(data@ =~= b@.subrange(25, i + 1));
            i += 1;
        }
        Ok(ReplicationMessage::XLogData { wal_start, wal_end, send_time, data })
    } else if tag == KEEPALIVE_TAG {
        if b.len() < 18 {
            return Err(DecodeError::Truncated);
        }
        let wal_end = read_be(b, 1, 8);
        let timestamp = read_i64(b, 9);
        Ok(ReplicationMessage::PrimaryKeepalive { wal_end, timestamp, reply_requested: b[17] != 0 })
    } else {
        Err(DecodeError::UnsupportedMessage(tag))
    }
}

pub const BEGIN_TAG: u8 = 66;

pub const COMMIT_TAG: u8 = 67;

pub const TRUNCATE_TAG: u8 = 84;

/// The table ids of a truncate message, `count` four-byte fields from `off`.
pub open spec fn ids_at(b: Seq<u8>, off: int, count: nat) -> Seq<TableId>
    decreases count,
{
    if count == 0 {
        seq![]
    } else {
        ids_at(b, off, (count - 1) as nat).push(field(b, off + 4 * (count - 1), 4) as u32)
    }
}

/// Decodes a transaction boundary or truncate message of the logical stream
/// into its event: `B` begin (final position, commit time, transaction id),
/// `C` commit (flags, commit position, end position, commit time), `T`
/// truncate (relation count, options, relation ids). Relation, type and
/// origin messages have decoders of their own in `relation`; row messages in
/// `rows`.
pub fn decode_logical_message(b: &[u8]) -> (r: Result<CdcEvent, DecodeError>)
    ensures
        b@.len() == 0 ==> r == Err::<CdcEvent, DecodeError>(DecodeError::Truncated),
        b@.len() > 0 && b@[0] == BEGIN_TAG ==> if b@.len() < 21 {
            r == Err::<CdcEvent, DecodeError>(DecodeError::Truncated)
        } else {
            r == Ok::<CdcEvent, DecodeError>(
                CdcEvent::Begin {
                    final_lsn: field(b@, 1, 8) as u64,
                    timestamp: signed64(field(b@, 9, 8)) as i64,
                    xid: field(b@, 17, 4) as u32,
                },
            )
        },
        b@.len() > 0 && b@[0] == COMMIT_TAG ==> if b@.len() < 26 {
            r == Err::<CdcEvent, DecodeError>(DecodeError::Truncated)
        } else {
            r == Ok::<CdcEvent, DecodeError>(
                CdcEvent::Commit {
                    flags: b@[1],
                    commit_lsn: field(b@, 2, 8) as u64,
                    end_lsn: field(b@, 10, 8) as u64,
                    timestamp: signed64(field(b@, 18, 8)) as i64,
                },
            )
        },
        b@.len() > 0 && b@[0] == TRUNCATE_TAG ==> if b@.len() < 6 || b@.len() < 6 + 4 * field(
            b@,
            1,
            4,
        ) {
            r == Err::<CdcEvent, DecodeError>(DecodeError::Truncated)
        } else {
            &&& r matches Ok(CdcEvent::Truncate { table_ids, options })
            &&& options == b@[5]
            &&& table_ids@ == ids_at(b@, 6, field(b@, 1, 4))
        },
        b@.len() > 0 && b@[0] != BEGIN_TAG && b@[0] != COMMIT_TAG && b@[0] != TRUNCATE_TAG ==> r
            == Err::<CdcEvent, DecodeError>(DecodeError::UnsupportedMessage(b@[0])),
{
    if b.len() == 0 {
        return Err(DecodeError::Truncated);
    }
    let tag = b[0];
    if tag == BEGIN_TAG {
        if b.len() < 21 {
            return Err(DecodeError::Truncated);
        }
        let final_lsn = read_be(b, 1, 8);
        let timestamp = read_i64(b, 9);
        let xid = read_be(b, 17, 4);
        proof {
            lemma_field_bound(b@, 17, 4);
        }
        Ok(CdcEvent::Begin { final_lsn, timestamp, xid: xid as u32 })
    } else if tag == COMMIT_TAG {
        if b.len() < 26 {
            return Err(DecodeError::Truncated);
        }
        let commit_lsn = read_be(b, 2, 8);
        let end_lsn = read_be(b, 10, 8);
        let timestamp = read_i64(b, 18);
        Ok(CdcEvent::Commit { flags: b[1], commit_lsn, end_lsn, timestamp })
    } else if tag == TRUNCATE_TAG {
        if b.len() < 6 {
            return Err(DecodeError::Truncated);
        }
        let count = read_be(b, 1, 4);
        if (b.len() as u64 - 6) / 4 < count {
            return Err(DecodeError::Truncated);
        }
        proof {
            lemma_field_bound(b@, 1, 4);
            lemma_pow256_8();
        }
        let options = b[5];
        let len = b.len();
        let mut table_ids: Vec<TableId> = Vec::new();
        let mut k: u64 = 0;
        while k < count
            invariant
                len == b@.len(),
                count == field(b@, 1, 4),
                count < 0x1_0000_0000,
                6 + 4 * count <= b@.len(),
                0 <= k <= count,
                table_ids@ == ids_at(b@, 6, k as nat),
            decreases count - k,
        {
            let off = (6 + 4 * k) as usize;
            let id = read_be(b, off, 4);
            proof {
                lemma_field_bound(b@, off as int, 4);
            }
            table_ids.push(id as u32);
            assert(off as int == 6 + 4 * k);
            assert(ids_at(b@, 6, (k + 1) as nat) == ids_at(b@, 6, k as nat).push(
                field(b@, 6 + 4 * k, 4) as u32,
            ));
            assert(table_ids@ =~= ids_at(b@, 6, (k + 1) as nat));
            k += 1;
        }
        Ok(CdcEvent::Truncate { table_ids, options })
    } else {
        Err(DecodeError::UnsupportedMessage(tag))
    }
}

pub(crate) proof fn lemma_field_bound(b: Seq<u8>, off: int, n: nat)
    requires
        0 <= off,
        off + n <= b.len(),
    ensures
        field(b, off, n as int) < pow256(n),
    decreases n,
{
    if n > 0 {
        let s = b.subrange(off, off + n);
        assert(s.drop_last() =~= b.subrange(off, off + n - 1));
        lemma_field_bound(b, off, (n - 1) as nat);
        let p = pow256((n - 1) as nat);
        let v = field(b, off, n - 1);
        let x = s.last() as nat;
        assert(v * 256 + x < p * 256) by (nonlinear_arith)
            requires
                v < p,
                x < 256,
        {
        }
    }
}

/// The event a keepalive becomes.
pub fn keepalive_event(msg: &ReplicationMessage) -> (r: Option<CdcEvent>)
    ensures
        match *msg {
            ReplicationMessage::PrimaryKeepalive { wal_end, timestamp, reply_requested } => r
                == Some(CdcEvent::KeepAliveRequested { wal_end, timestamp, reply_requested }),
            _ => r is None,
        },
{
    match msg {
        ReplicationMessage::PrimaryKeepalive { wal_end, timestamp, reply_requested } => Some(
            CdcEvent::KeepAliveRequested {
                wal_end: *wal_end,
                timestamp: *timestamp,
                reply_requested: *reply_requested,
            },
        ),
        _ => None,
    }
}

} // verus!
