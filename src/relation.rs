//! Decoding of relation messages, the schema bulletins of the logical stream:
//! table id, namespace and name (NUL-terminated), replica identity setting,
//! column count, then per column its flags (1: part of the replica
//! identity), NUL-terminated name, type id and type modifier.
use vstd::prelude::*;
use vstd::utf8::{encode_utf8, valid_utf8};
use crate::model::{CdcEvent, ColumnSchema, Lsn, TableName, TableSchema};
use crate::values::utf8_string;
use crate::wire::{field, read_be, signed64};

verus! {

pub const RELATION_TAG: u8 = 82;

/// Why a relation message could not be decoded.
#[derive(Clone, Copy, Debug, PartialEq, Eq, Structural)]
pub enum RelationError {
    /// The message ends early, has another tag, or holds a name that is not UTF-8.
    Malformed,
}

/// Index of the first NUL at or after `p`, if any.
pub open spec fn nul_at_or_after(b: Seq<u8>, p: int, q: int) -> bool {
    &&& p <= q < b.len()
    &&& b[q] == 0
    &&& forall|k: int| p <= k < q ==> b[k] != 0
}

pub open spec fn signed32(v: nat) -> int {
    if v >= 0x8000_0000 {
        v - 0x1_0000_0000
    } else {
        v as int
    }
}

proof fn lemma_nul_unique(b: Seq<u8>, p: int, q1: int, q2: int)
    requires
        nul_at_or_after(b, p, q1),
        nul_at_or_after(b, p, q2),
    ensures
        q1 == q2,
{
    if q1 < q2 {
        assert(b[q1] != 0);
    } else if q2 < q1 {
        assert(b[q2] != 0);
    }
}

/// A NUL follows `p`, and the bytes before it are UTF-8.
pub open spec fn cstring_fine(b: Seq<u8>, p: int) -> bool {
    exists|q: int| #[trigger] nul_at_or_after(b, p, q) && valid_utf8(b.subrange(p, q))
}

/// The first NUL at or after `p`.
pub open spec fn cstring_end(b: Seq<u8>, p: int) -> int {
    choose|q: int| #[trigger] nul_at_or_after(b, p, q)
}

/// `k` column entries from `p` decode.
pub open spec fn columns_fine(b: Seq<u8>, p: int, k: nat) -> bool
    decreases k,
{
    if k == 0 {
        true
    } else {
        &&& 0 <= p < b.len()
        &&& cstring_fine(b, p + 1)
        &&& cstring_end(b, p + 1) + 9 <= b.len()
        &&& columns_fine(b, cstring_end(b, p + 1) + 9, (k - 1) as nat)
    }
}

/// The relation message `b` decodes.
pub open spec fn relation_fine(b: Seq<u8>) -> bool {
    &&& b.len() >= 5
    &&& b[0] == RELATION_TAG
    &&& cstring_fine(b, 5)
    &&& cstring_fine(b, cstring_end(b, 5) + 1)
    &&& cstring_end(b, cstring_end(b, 5) + 1) + 4 <= b.len()
    &&& columns_fine(
        b,
        cstring_end(b, cstring_end(b, 5) + 1) + 4,
        field(b, cstring_end(b, cstring_end(b, 5) + 1) + 2, 2),
    )
}

/// Where `read_cstring` succeeds, its end is the first NUL.
proof fn lemma_cstring_end(b: Seq<u8>, p: int, q: int)
    requires
        nul_at_or_after(b, p, q),
    ensures
        cstring_end(b, p) == q,
{
    let c = cstring_end(b, p);
    assert(nul_at_or_after(b, p, c));
    lemma_nul_unique(b, p, q, c);
}

/// A name is the bytes before a NUL, as UTF-8.
fn read_cstring(b: &[u8], p: usize) -> (r: Option<(String, usize)>)
    requires
        p <= b@.len(),
    ensures
        r is None ==> forall|q: int| #[trigger] nul_at_or_after(b@, p as int, q) ==> !valid_utf8(
            b@.subrange(p as int, q),
        ),
        r matches Some((s, q)) ==> nul_at_or_after(b@, p as int, q as int) && encode_utf8(s@)
            == b@.subrange(p as int, q as int) && valid_utf8(b@.subrange(p as int, q as int)),
{
    let len = b.len();
    let mut q = p;
    while q < len && b[q] != 0
        invariant
            len == b@.len(),
            p <= q <= len,
            forall|k: int| p <= k < q ==> b@[k] != 0,
        decreases len - q,
    {
        q += 1;
    }
    if q >= len {
        return None;
    }
    assert(nul_at_or_after(b@, p as int, q as int));
    proof {
        assert forall|q2: int| #[trigger] nul_at_or_after(b@, p as int, q2) implies q2 == q by {
            lemma_nul_unique(b@, p as int, q as int, q2);
        }
    }
    let mut bytes: Vec<u8> = Vec::new();
    let mut i = p;
    while i < q
        invariant
            p <= i <= q < b@.len(),
            bytes@ == b@.subrange(p as int, i as int),
        decreases q - i,
    {
        bytes.push(b[i]);
        assert(bytes@ =~= b@.subrange(p as int, i + 1));
        i += 1;
    }
    match utf8_string(bytes) {
        Some(s) => Some((s, q)),
        None => None,
    }
}

/// Column `c` is what the column entry at `p` holds, and the entry ends at `e`.
pub open spec fn column_at(b: Seq<u8>, p: int, c: ColumnSchema, e: int) -> bool {
    exists|q: int|
        #![trigger nul_at_or_after(b, p + 1, q)]
        {
            &&& nul_at_or_after(b, p + 1, q)
            &&& encode_utf8(c.name@) == b.subrange(p + 1, q)
            &&& e == q + 9
            &&& e <= b.len()
            &&& c.identity == (b[p] == 1)
            &&& c.typ == field(b, q + 1, 4)
            &&& c.modifier == signed32(field(b, q + 5, 4))
            &&& c.nullable
        }
}

/// `cols` are the column entries from `p0`, entry `j` ending at `ends[j]`.
pub open spec fn columns_chain(b: Seq<u8>, p0: int, cols: Seq<ColumnSchema>, ends: Seq<int>) -> bool {
    &&& ends.len() == cols.len()
    &&& forall|j: int|
        0 <= j < cols.len() ==> column_at(
            b,
            if j == 0 {
                p0
            } else {
                ends[j - 1]
            },
            #[trigger] cols[j],
            ends[j],
        )
}

/// Decodes a relation message into the schema it announces. Columns are
/// taken as nullable: the message does not say otherwise.
pub fn decode_relation(b: &[u8]) -> (r: Result<TableSchema, RelationError>)
    ensures
        relation_fine(b@) ==> r is Ok,
        (b@.len() == 0 || b@[0] != RELATION_TAG) ==> r is Err,
        r matches Ok(s) ==> {
            &&& b@[0] == RELATION_TAG
            &&& s.table_id == field(b@, 1, 4)
            &&& exists|q1: int, q2: int|
                #![trigger nul_at_or_after(b@, 5, q1), nul_at_or_after(b@, q1 + 1, q2)]
                {
                    &&& nul_at_or_after(b@, 5, q1)
                    &&& nul_at_or_after(b@, q1 + 1, q2)
                    &&& encode_utf8(s.table_name.schema@) == b@.subrange(5, q1)
                    &&& encode_utf8(s.table_name.name@) == b@.subrange(q1 + 1, q2)
                    &&& q2 + 4 <= b@.len()
                    &&& field(b@, q2 + 2, 2) == s.column_schemas@.len()
                    &&& exists|ends: Seq<int>| #[trigger] columns_chain(b@, q2 + 4, s.column_schemas@, ends)
                }
        },
{
    let len = b.len();
    if len < 5 || b[0] != RELATION_TAG {
        return Err(RelationError::Malformed);
    }
    let id = read_be(b, 1, 4);
    proof {
        crate::wire::lemma_field_bound(b@, 1, 4);
        crate::wire::lemma_pow256_8();
    }
    let (schema_name, q1) = match read_cstring(b, 5) {
        Some(x) => x,
        None => {
            return Err(RelationError::Malformed);
        },
    };
    proof {
        if relation_fine(b@) {
            lemma_cstring_end(b@, 5, q1 as int);
        }
    }
    let (name, q2) = match read_cstring(b, q1 + 1) {
        Some(x) => x,
        None => {
            return Err(RelationError::Malformed);
        },
    };
    proof {
        if relation_fine(b@) {
            lemma_cstring_end(b@, q1 + 1, q2 as int);
        }
    }
    if len - q2 < 4 {
        return Err(RelationError::Malformed);
    }
    let count = read_be(b, q2 + 2, 2);
    let mut column_schemas: Vec<ColumnSchema> = Vec::new();
    let mut p: usize = q2 + 4;
    let mut k: u64 = 0;
    let ghost mut ends: Seq<int> = Seq::empty();
    while k < count
        invariant
            len == b@.len(),
            q2 + 4 <= p <= len,
            k <= count,
            column_schemas@.len() == k,
            columns_chain(b@, q2 + 4, column_schemas@, ends),
            p == (if k == 0 {
                q2 + 4
            } else {
                ends[k - 1]
            }),
            count == field(b@, q2 + 2, 2),
            nul_at_or_after(b@, 5, q1 as int),
            nul_at_or_after(b@, q1 + 1, q2 as int),
            encode_utf8(schema_name@) == b@.subrange(5, q1 as int),
            encode_utf8(name@) == b@.subrange(q1 + 1, q2 as int),
            q2 + 4 <= b@.len(),
            relation_fine(b@) ==> columns_fine(b@, p as int, (count - k) as nat),
        decreases count - k,
    {
        if p >= len {
            return Err(RelationError::Malformed);
        }
        let flags = b[p];
        let (col_name, q) = match read_cstring(b, p + 1) {
            Some(x) => x,
            None => {
                return Err(RelationError::Malformed);
            },
        };
        proof {
            if relation_fine(b@) {
                lemma_cstring_end(b@, p + 1, q as int);
            }
        }
        if len - q < 9 {
            return Err(RelationError::Malformed);
        }
        let typ = read_be(b, q + 1, 4);
        let m = read_be(b, q + 5, 4);
        proof {
            crate::wire::lemma_field_bound(b@, q + 1, 4);
            crate::wire::lemma_field_bound(b@, q + 5, 4);
            crate::wire::lemma_pow256_8();
        }
        let modifier: i32 = if m >= 0x8000_0000 {
            (m as i64 - 0x1_0000_0000) as i32
        } else {
            m as i32
        };
        let c = ColumnSchema {
            name: col_name,
            typ: typ as u32,
            modifier,
            nullable: true,
            identity: flags == 1,
        };
        assert(column_at(b@, p as int, c, q + 9));
        let ghost prev = column_schemas@;
        column_schemas.push(c);
        proof {
            let e2 = ends.push(q + 9);
            assert forall|j: int| 0 <= j < column_schemas@.len() implies column_at(
                b@,
                if j == 0 {
                    q2 + 4
                } else {
                    e2[j - 1]
                },
                #[trigger] column_schemas@[j],
                e2[j],
            ) by {
                if j < prev.len() {
                    assert(column_schemas@[j] == prev[j]);
                }
            }
            ends = e2;
        }
        p = q + 9;
        k += 1;
    }
    assert(columns_chain(b@, q2 + 4, column_schemas@, ends));
    assert(nul_at_or_after(b@, 5, q1 as int) && nul_at_or_after(b@, q1 + 1, q2 as int));
    Ok(TableSchema {
        table_id: id as u32,
        table_name: TableName { schema: schema_name, name },
        column_schemas,
    })
}

pub const TYPE_TAG: u8 = 89;

pub const ORIGIN_TAG: u8 = 79;

/// Decodes a type message (`Y`: type id, namespace and name, each name
/// NUL-terminated) into its event.
pub fn decode_type_message(b: &[u8]) -> (r: Result<CdcEvent, RelationError>)
    ensures
        (b@.len() >= 5 && b@[0] == TYPE_TAG && cstring_fine(b@, 5) && cstring_fine(
            b@,
            cstring_end(b@, 5) + 1,
        )) <==> r is Ok,
        r matches Ok(e) ==> {
            &&& e matches CdcEvent::Type { oid, namespace, name }
            &&& oid == field(b@, 1, 4)
            &&& encode_utf8(namespace@) == b@.subrange(5, cstring_end(b@, 5))
            &&& encode_utf8(name@) == b@.subrange(
                cstring_end(b@, 5) + 1,
                cstring_end(b@, cstring_end(b@, 5) + 1),
            )
        },
{
    let len = b.len();
    if len < 5 || b[0] != TYPE_TAG {
        return Err(RelationError::Malformed);
    }
    let oid = read_be(b, 1, 4);
    proof {
        crate::wire::lemma_field_bound(b@, 1, 4);
        crate::wire::lemma_pow256_8();
    }
    let (namespace, q1) = match read_cstring(b, 5) {
        Some(x) => x,
        None => {
            return Err(RelationError::Malformed);
        },
    };
    proof {
        lemma_cstring_end(b@, 5, q1 as int);
        assert(cstring_fine(b@, 5));
    }
    let (name, q2) = match read_cstring(b, q1 + 1) {
        Some(x) => x,
        None => {
            return Err(RelationError::Malformed);
        },
    };
    proof {
        lemma_cstring_end(b@, q1 + 1, q2 as int);
        assert(cstring_fine(b@, q1 + 1));
    }
    Ok(CdcEvent::Type { oid: oid as u32, namespace, name })
}

/// Decodes an origin message (`O`: the commit position at the origin, then
/// the origin's NUL-terminated name).
pub fn decode_origin_message(b: &[u8]) -> (r: Result<(Lsn, String), RelationError>)
    ensures
        (b@.len() >= 9 && b@[0] == ORIGIN_TAG && cstring_fine(b@, 9)) <==> r is Ok,
        r matches Ok((lsn, name)) ==> lsn == field(b@, 1, 8) && encode_utf8(name@)
            == b@.subrange(9, cstring_end(b@, 9)),
{
    let len = b.len();
    if len < 9 || b[0] != ORIGIN_TAG {
        return Err(RelationError::Malformed);
    }
    let lsn = read_be(b, 1, 8);
    let (name, q) = match read_cstring(b, 9) {
        Some(x) => x,
        None => {
            return Err(RelationError::Malformed);
        },
    };
    proof {
        lemma_cstring_end(b@, 9, q as int);
        assert(cstring_fine(b@, 9));
    }
    Ok((lsn, name))
}

} // verus!
