//! The decisions of both ends of the control channel: what a worker does with
//! an envelope, how it shapes result rows and answers, and what the
//! coordinator keeps from what workers send.
use vstd::prelude::*;
use crate::target::same_text;
use crate::message::{Message, MessageLog, MessageSearchRequest, MessageSearchResponse, QueryResults, Row};
use crate::pending::PendingResponses;
use crate::shard::new_id;

verus! {

/// What a worker does with an envelope from the coordinator.
#[derive(Debug)]
pub enum WorkerTask {
    /// Insert a log into the active shard.
    Ingest(MessageLog),
    /// Run the query against the referenced snapshot and answer.
    Search(MessageSearchRequest),
    /// Nothing: the envelope is not meant for a worker.
    Ignore,
}

/// Routes an envelope received by a worker.
pub fn route_message(m: Message) -> (t: WorkerTask)
    ensures
        m matches Message::Log(l) ==> t == WorkerTask::Ingest(l),
        m matches Message::SearchRequest(r) ==> t == WorkerTask::Search(r),
        m is SearchResponse ==> t is Ignore,
{
    match m {
        Message::Log(l) => WorkerTask::Ingest(l),
        Message::SearchRequest(r) => WorkerTask::Search(r),
        Message::SearchResponse(_) => WorkerTask::Ignore,
    }
}

/// The answer to request `request_id`: the rows the query produced, or no
/// rows where it failed. An answer is always sent, so the query can complete.
pub fn search_reply(request_id: String, outcome: Option<QueryResults>) -> (m: Message)
    ensures
        m matches Message::SearchResponse(r) && r.id == request_id && (match outcome {
            Some(rows) => r.payload == rows,
            None => r.payload@.len() == 0,
        }),
{
    let payload = match outcome {
        Some(rows) => rows,
        None => Vec::new(),
    };
    Message::SearchResponse(MessageSearchResponse { id: request_id, payload })
}

/// Takes in an envelope read by the coordinator: a search response is filed
/// under its request id, replacing any earlier one; nothing else is accepted
/// in this direction. Returns whether it was filed.
pub fn accept_response(pending: &mut PendingResponses, m: Message) -> (filed: bool)
    requires
        old(pending).wf(),
    ensures
        final(pending).wf(),
        filed == m is SearchResponse,
        m matches Message::SearchResponse(r) ==> final(pending)@ == old(pending)@.insert(r.id@, r),
        !(m is SearchResponse) ==> final(pending)@ == old(pending)@,
{
    match m {
        Message::SearchResponse(r) => {
            pending.insert(r);
            true
        },
        _ => false,
    }
}

/// Delay before the first reconnection attempt, in milliseconds.
pub const FIRST_BACKOFF_MS: u64 = 250;

/// Longest delay between reconnection attempts, in milliseconds (30 s).
pub const MAX_BACKOFF_MS: u64 = 30000;

/// The delay before the next reconnection attempt after one of `delay_ms`
/// failed: doubled, capped at `MAX_BACKOFF_MS`.
pub fn next_backoff(delay_ms: u64) -> (r: u64)
    ensures
        r == if 2 * delay_ms >= MAX_BACKOFF_MS { MAX_BACKOFF_MS as int } else { 2 * delay_ms },
{
    if delay_ms >= MAX_BACKOFF_MS / 2 {
        MAX_BACKOFF_MS
    } else {
        2 * delay_ms
    }
}

/// The character of decimal digit `d`.
pub open spec fn digit_char(d: nat) -> char {
    if d == 0 { '0' }
    else if d == 1 { '1' }
    else if d == 2 { '2' }
    else if d == 3 { '3' }
    else if d == 4 { '4' }
    else if d == 5 { '5' }
    else if d == 6 { '6' }
    else if d == 7 { '7' }
    else if d == 8 { '8' }
    else { '9' }
}

/// The decimal digits of `n`, most significant first.
pub open spec fn digits_of(n: nat) -> Seq<char>
    decreases n,
{
    if n < 10 {
        seq![digit_char(n)]
    } else {
        digits_of(n / 10).push(digit_char(n % 10))
    }
}

/// The decimal text of `i`, with a leading `-` when negative.
pub open spec fn decimal_of(i: int) -> Seq<char> {
    if i < 0 {
        seq!['-'] + digits_of((-i) as nat)
    } else {
        digits_of(i as nat)
    }
}

fn digit_text(d: u64) -> (r: &'static str)
    requires
        d < 10,
    ensures
        r@ == seq![digit_char(d as nat)],
{
    proof {
        reveal_strlit("0");
        reveal_strlit("1");
        reveal_strlit("2");
        reveal_strlit("3");
        reveal_strlit("4");
        reveal_strlit("5");
        reveal_strlit("6");
        reveal_strlit("7");
        reveal_strlit("8");
        reveal_strlit("9");
    }
    let r = if d == 0 { "0" }
    else if d == 1 { "1" }
    else if d == 2 { "2" }
    else if d == 3 { "3" }
    else if d == 4 { "4" }
    else if d == 5 { "5" }
    else if d == 6 { "6" }
    else if d == 7 { "7" }
    else if d == 8 { "8" }
    else { "9" };
    assert(r@ =~= seq![digit_char(d as nat)]);
    r
}

fn push_digits(out: &mut String, n: u64)
    ensures
        final(out)@ == old(out)@ + digits_of(n as nat),
    decreases n,
{
    if n >= 10 {
        push_digits(out, n / 10);
    }
    out.append(digit_text(n % 10));
    assert(final(out)@ =~= old(out)@ + digits_of(n as nat));
}

/// The decimal text of `v`.
pub fn decimal(v: i64) -> (r: String)
    ensures
        r@ == decimal_of(v as int),
{
    let mut out = String::new();
    if v < 0 {
        proof {
            reveal_strlit("-");
        }
        out.append("-");
        let magnitude: u64 = (0i128 - v as i128) as u64;
        push_digits(&mut out, magnitude);
        assert(out@ =~= decimal_of(v as int));
    } else {
        push_digits(&mut out, v as u64);
        assert(out@ =~= decimal_of(v as int));
    }
    out
}

/// A column value as read from a result row. Values of other types arrive
/// already rendered as text.
#[derive(Debug)]
pub enum ColumnValue {
    Integer(i64),
    Text(String),
    Null,
}

/// A row's columns as names and texts.
pub open spec fn row_view(row: Seq<(String, String)>) -> Seq<(Seq<char>, Seq<char>)> {
    row.map_values(|c: (String, String)| (c.0@, c.1@))
}

/// The text a column value is given.
pub open spec fn value_text(v: ColumnValue) -> Seq<char> {
    match v {
        ColumnValue::Integer(i) => decimal_of(i as int),
        ColumnValue::Text(s) => s@,
        ColumnValue::Null => "null"@,
    }
}

/// Some column of `row` is named `name`.
pub open spec fn names(row: Seq<(Seq<char>, Seq<char>)>, name: Seq<char>) -> bool {
    exists|i: int| 0 <= i < row.len() && row[i].0 == name
}

/// `row` with column `name` set to `text`: in place where the name is there,
/// else appended.
pub open spec fn with_column(
    row: Seq<(Seq<char>, Seq<char>)>,
    name: Seq<char>,
    text: Seq<char>,
) -> Seq<(Seq<char>, Seq<char>)> {
    if names(row, name) {
        row.update(choose|i: int| 0 <= i < row.len() && row[i].0 == name, (name, text))
    } else {
        row.push((name, text))
    }
}

/// The row that `cols` make, read in order: each column sets its name's
/// value, a later one replacing an earlier one of the same name.
pub open spec fn row_of(cols: Seq<(String, ColumnValue)>) -> Seq<(Seq<char>, Seq<char>)>
    decreases cols.len(),
{
    if cols.len() == 0 {
        Seq::empty()
    } else {
        with_column(row_of(cols.drop_last()), cols.last().0@, value_text(cols.last().1))
    }
}

/// Column names are distinct.
pub open spec fn distinct_names(row: Seq<(Seq<char>, Seq<char>)>) -> bool {
    forall|i: int, j: int| 0 <= i < row.len() && 0 <= j < row.len() && i != j ==> row[i].0 != row[j].0
}

/// Sets column `name` of `row` to `text`: in place where the name is there,
/// else appended.
fn set_column(row: &mut Row, name: &String, text: String)
    requires
        distinct_names(row_view(old(row)@)),
    ensures
        row_view(final(row)@) == with_column(row_view(old(row)@), name@, text@),
        distinct_names(row_view(final(row)@)),
{
    let ghost v0 = row_view(row@);
    let mut i: usize = 0;
    while i < row.len()
        invariant
            i <= row@.len(),
            row@ == old(row)@,
            v0 == row_view(row@),
            distinct_names(v0),
            forall|j: int| 0 <= j < i ==> v0[j].0 != name@,
        decreases row@.len() - i,
    {
        if same_text(row[i].0.as_str(), name.as_str()) {
            row.set(i, (name.clone(), text));
            proof {
                assert(v0[i as int].0 == name@);
                let c = choose|c: int| 0 <= c < v0.len() && v0[c].0 == name@;
                assert(c == i);
                assert(row_view(row@) =~= v0.update(i as int, (name@, text@)));
                assert(distinct_names(row_view(row@))) by {
                    let w = row_view(row@);
                    assert forall|a: int, b: int| 0 <= a < w.len() && 0 <= b < w.len() && a != b implies w[a].0 != w[b].0 by {
                        assert(w[a].0 == v0[a].0);
                        assert(w[b].0 == v0[b].0);
                    }
                }
            }
            return;
        }
        i = i + 1;
    }
    row.push((name.clone(), text));
    assert(!names(v0, name@));
    assert(row_view(row@) =~= v0.push((name@, text@)));
}

/// Builds a result row from the columns read, in order: integers as decimal
/// text, text as it is, null as `null`; a later column replaces an earlier one
/// of the same name.
pub fn row_from_columns(cols: &Vec<(String, ColumnValue)>) -> (r: Row)
    ensures
        row_view(r@) == row_of(cols@),
        distinct_names(row_view(r@)),
{
    let mut row: Row = Vec::new();
    assert(row_view(row@) =~= row_of(cols@.subrange(0, 0)));
    let mut k: usize = 0;
    while k < cols.len()
        invariant
            k <= cols@.len(),
            row_view(row@) == row_of(cols@.subrange(0, k as int)),
            distinct_names(row_view(row@)),
        decreases cols@.len() - k,
    {
        let name = &cols[k].0;
        let text: String = match &cols[k].1 {
            ColumnValue::Integer(i) => decimal(*i),
            ColumnValue::Text(t) => t.clone(),
            ColumnValue::Null => String::from_str("null"),
        };
        assert(cols@.subrange(0, k + 1).drop_last() =~= cols@.subrange(0, k as int));
        set_column(&mut row, name, text);
        k = k + 1;
    }
    assert(cols@.subrange(0, cols@.len() as int) =~= cols@);
    row
}

/// A log row of the active shard.
#[derive(Debug)]
pub struct LogRecord {
    pub id: String,
    pub timestamp: String,
    pub message: String,
}

/// The record of a log ingested at the instant whose text is `stamp`: a fresh
/// random id, and the message `http log <stamp>`.
pub fn new_log_record(stamp: &str) -> (r: LogRecord)
    ensures
        crate::shard::is_uuid_v4_text(r.id@),
        r.timestamp@ == stamp@,
        r.message@ == "http log "@ + stamp@,
{
    let mut message = String::from_str("http log ");
    message.append(stamp);
    LogRecord { id: new_id(), timestamp: String::from_str(stamp), message }
}

} // verus!
