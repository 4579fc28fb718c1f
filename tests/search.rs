use logsearch::catalog::{ShardCatalog, DEFAULT_WINDOW_SECS};
use logsearch::message::{Message, MessageLog, QueryResults, Row};
use logsearch::pending::PendingResponses;
use logsearch::queue::CommandQueue;
use logsearch::scheduler::{dispatch, schedule_query, DEADLINE_MS};
use logsearch::shard::ShardMetadata;
use logsearch::worker::{accept_response, route_message, search_reply, WorkerTask};

const NOW: i64 = 1_700_000_000;

fn meta(id: &str, ts: i64) -> ShardMetadata {
    ShardMetadata {
        name: "logs".to_string(),
        id: id.to_string(),
        storage_key: format!("logs.{}.db", id),
        timestamp: ts,
    }
}

fn rows(n: usize, tag: &str) -> QueryResults {
    (0..n)
        .map(|i| -> Row { vec![("id".to_string(), format!("{}-{}", tag, i))] })
        .collect()
}

/// A worker takes one command off the queue and answers it with `n` rows.
fn serve_one(queue: &mut CommandQueue, pending: &mut PendingResponses, n: usize, tag: &str) {
    let cmd = queue.pop_next().expect("a command");
    match route_message(cmd) {
        WorkerTask::Search(req) => {
            let reply = search_reply(req.id, Some(rows(n, tag)));
            assert!(accept_response(pending, reply));
        }
        other => panic!("unexpected {:?}", other),
    }
}

#[test]
fn single_shard_search_returns_all_rows() {
    let mut catalog = ShardCatalog::new();
    catalog.upsert(meta("s1", NOW - 60));
    let mut queue = CommandQueue::new();
    let mut pending = PendingResponses::new();
    let mut run = schedule_query(&catalog, &mut queue, "logs", "select * from logs", NOW, DEFAULT_WINDOW_SECS, 0);
    assert_eq!(run.request_count(), 1);
    assert_eq!(queue.len(), 1);
    assert!(!run.poll(&mut pending, 50));
    serve_one(&mut queue, &mut pending, 3, "a");
    assert!(run.poll(&mut pending, 100));
    assert!(run.is_complete());
    assert_eq!(run.into_rows().len(), 3);
    assert_eq!(pending.len(), 0);
}

#[test]
fn two_worker_fan_out_merges_rows() {
    let mut catalog = ShardCatalog::new();
    catalog.upsert(meta("w1", NOW - 30));
    catalog.upsert(meta("w2", NOW - 20));
    let mut queue = CommandQueue::new();
    let mut pending = PendingResponses::new();
    let mut run = schedule_query(&catalog, &mut queue, "logs", "select * from logs", NOW, DEFAULT_WINDOW_SECS, 0);
    assert_eq!(run.request_count(), 2);
    serve_one(&mut queue, &mut pending, 2, "a");
    assert!(!run.poll(&mut pending, 50));
    serve_one(&mut queue, &mut pending, 2, "b");
    assert!(run.poll(&mut pending, 100));
    assert_eq!(run.into_rows().len(), 4);
}

#[test]
fn missing_worker_times_out_empty() {
    let mut catalog = ShardCatalog::new();
    catalog.upsert(meta("lonely", NOW - 60));
    let mut queue = CommandQueue::new();
    let mut pending = PendingResponses::new();
    let started = 1_000u64;
    let mut run = schedule_query(&catalog, &mut queue, "logs", "select * from logs", NOW, DEFAULT_WINDOW_SECS, started);
    let mut t = started;
    while !run.poll(&mut pending, t) {
        t += 50;
    }
    assert_eq!(t, started + DEADLINE_MS);
    assert!(!run.is_complete());
    assert!(run.into_rows().is_empty());
    assert_eq!(queue.len(), 1);
}

#[test]
fn malformed_query_answer_completes_with_no_rows() {
    let mut queue = CommandQueue::new();
    let mut pending = PendingResponses::new();
    let shards = vec![meta("s", NOW)];
    let mut run = dispatch(&mut queue, &shards, "selec * frm logs", vec!["req-1".to_string()], 0);
    let cmd = queue.pop_next().unwrap();
    let req = match route_message(cmd) {
        WorkerTask::Search(req) => req,
        other => panic!("unexpected {:?}", other),
    };
    assert_eq!(req.query, "selec * frm logs");
    assert_eq!(req.shard.id, "s");
    match search_reply(req.id, None) {
        Message::SearchResponse(r) => {
            assert_eq!(r.id, "req-1");
            assert!(r.payload.is_empty());
            accept_response(&mut pending, Message::SearchResponse(r));
        }
        _ => panic!("not a response"),
    }
    assert!(run.poll(&mut pending, 10));
    assert!(run.is_complete());
    assert!(run.into_rows().is_empty());
}

#[test]
fn poll_takes_only_its_own_responses() {
    let mut queue = CommandQueue::new();
    let mut pending = PendingResponses::new();
    let shards = vec![meta("a", NOW), meta("b", NOW)];
    let mut run = dispatch(&mut queue, &shards, "q", vec!["r1".to_string(), "r2".to_string()], 0);
    accept_response(&mut pending, search_reply("other".to_string(), Some(rows(5, "x"))));
    accept_response(&mut pending, search_reply("r2".to_string(), Some(rows(1, "b"))));
    assert!(!run.poll(&mut pending, 10));
    assert_eq!(pending.len(), 1);
    assert!(pending.contains("other"));
    accept_response(&mut pending, search_reply("r1".to_string(), Some(rows(2, "a"))));
    assert!(run.poll(&mut pending, 20));
    let got = run.into_rows();
    assert_eq!(got.len(), 3);
    assert_eq!(got[0][0].1, "b-0");
    assert_eq!(got[1][0].1, "a-0");
    assert_eq!(got[2][0].1, "a-1");
}

#[test]
fn deadline_finishes_poll_even_without_answers() {
    let mut queue = CommandQueue::new();
    let mut pending = PendingResponses::new();
    let shards = vec![meta("a", NOW)];
    let mut run = dispatch(&mut queue, &shards, "q", vec!["r1".to_string()], 100);
    assert!(!run.poll(&mut pending, 100 + DEADLINE_MS - 1));
    assert!(run.poll(&mut pending, 100 + DEADLINE_MS));
}

#[test]
fn query_with_no_candidates_finishes_at_once() {
    let catalog = ShardCatalog::new();
    let mut queue = CommandQueue::new();
    let mut pending = PendingResponses::new();
    let mut run = schedule_query(&catalog, &mut queue, "logs", "select 1", NOW, DEFAULT_WINDOW_SECS, 0);
    assert_eq!(run.request_count(), 0);
    assert!(run.poll(&mut pending, 0));
    assert!(queue.is_empty());
}

#[test]
fn schedule_mints_distinct_request_ids() {
    let mut catalog = ShardCatalog::new();
    for id in ["a", "b", "c"] {
        catalog.upsert(meta(id, NOW));
    }
    let mut queue = CommandQueue::new();
    let run = schedule_query(&catalog, &mut queue, "logs", "select 1", NOW, DEFAULT_WINDOW_SECS, 0);
    assert_eq!(run.request_count(), 3);
    let mut ids = Vec::new();
    let mut shards = Vec::new();
    while let Some(Message::SearchRequest(r)) = queue.pop_next() {
        assert_eq!(r.id.len(), 36);
        assert_eq!(r.query, "select 1");
        shards.push(r.shard.id);
        ids.push(r.id);
    }
    assert_eq!(shards, vec!["a", "b", "c"]);
    ids.sort();
    ids.dedup();
    assert_eq!(ids.len(), 3);
}

#[test]
fn queue_delivers_each_command_once_in_order() {
    let mut queue = CommandQueue::new();
    for i in 0..3 {
        queue.push(Message::Log(MessageLog { log: format!("log {}", i) }));
    }
    let mut seen = Vec::new();
    while let Some(Message::Log(l)) = queue.pop_next() {
        seen.push(l.log);
    }
    assert_eq!(seen, vec!["log 0", "log 1", "log 2"]);
    assert!(queue.pop_next().is_none());
    assert!(queue.is_empty());
}

#[test]
fn later_response_replaces_earlier() {
    let mut pending = PendingResponses::new();
    accept_response(&mut pending, search_reply("r".to_string(), Some(rows(1, "a"))));
    accept_response(&mut pending, search_reply("r".to_string(), Some(rows(2, "b"))));
    assert_eq!(pending.len(), 1);
    let got = pending.take("r").unwrap();
    assert_eq!(got.payload.len(), 2);
    assert!(pending.take("r").is_none());
}

#[test]
fn coordinator_refuses_requests_as_input() {
    let mut pending = PendingResponses::new();
    let filed = accept_response(&mut pending, Message::Log(MessageLog { log: "x".to_string() }));
    assert!(!filed);
    assert_eq!(pending.len(), 0);
}
