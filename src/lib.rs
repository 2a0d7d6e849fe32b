//! Core of a PostgreSQL logical-replication pipeline that mirrors tables into
//! BigQuery: the neutral row and schema model, decoding of the replication
//! stream's framing and transaction messages, the mapping of upstream column
//! types onto sink types, the protobuf row encoding and SQL text of the
//! BigQuery sink, and the pipeline engine's rules for batching, acknowledging
//! durable positions, completing toasted updates and following schemas.
use vstd::prelude::*;

pub mod model;
pub mod sink_types;
pub mod text;
pub mod proto;
pub mod sql;
pub mod batch;
pub mod engine;
pub mod decode;
pub mod changes;
pub mod wire;
pub mod values;
pub mod tuples;
pub mod rows;
pub mod relation;

verus! {

} // verus!
