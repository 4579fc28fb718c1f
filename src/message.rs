//! The envelopes exchanged on the control channel.
use vstd::prelude::*;
use crate::shard::ShardMetadata;

verus! {

/// One result row: column names with the value of each as text. Column names
/// are distinct.
pub type Row = Vec<(String, String)>;

/// The rows a query returned, in order.
pub type QueryResults = Vec<Row>;

/// Coordinator to worker: ingest one log.
#[derive(Debug)]
pub struct MessageLog {
    pub log: String,
}

/// Coordinator to worker: run `query` against the snapshot of `shard` and
/// answer under `id`.
#[derive(Debug)]
pub struct MessageSearchRequest {
    pub query: String,
    pub id: String,
    pub shard: ShardMetadata,
}

/// Worker to coordinator: the rows that the request `id` produced.
#[derive(Debug)]
pub struct MessageSearchResponse {
    pub id: String,
    pub payload: QueryResults,
}

/// A control-channel envelope.
#[derive(Debug)]
pub enum Message {
    Log(MessageLog),
    SearchRequest(MessageSearchRequest),
    SearchResponse(MessageSearchResponse),
}

} // verus!
