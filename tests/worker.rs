use logsearch::message::{Message, MessageSearchResponse};
use logsearch::rotation::{Phase, RotationAction, RotationEvent, ShardRotation};
use logsearch::shard::{storage_key_for, ShardMetadata, EARLIEST_INSTANT, LATEST_INSTANT};
use logsearch::target::{search_target, target_of_lowered, trimmed};
use logsearch::worker::{
    decimal, new_log_record, next_backoff, route_message, row_from_columns, ColumnValue, WorkerTask, FIRST_BACKOFF_MS,
    MAX_BACKOFF_MS,
};

#[test]
fn target_is_between_from_and_where() {
    assert_eq!(target_of_lowered("select * from logs where id = 1"), "logs");
    assert_eq!(target_of_lowered("select * from   logs  "), "logs");
    assert_eq!(target_of_lowered("select 1"), "");
    assert_eq!(target_of_lowered("select * from logs, x from y"), "logs, x");
    assert_eq!(target_of_lowered("select * from logswhere x"), "logs");
}

#[test]
fn search_target_lowercases_only_the_pattern() {
    let t = search_target("SELECT * FROM Logs WHERE Id = 1");
    assert_eq!(t.query, "SELECT * FROM Logs WHERE Id = 1");
    assert_eq!(t.pattern, "logs");
}

#[test]
fn trim_removes_unicode_space() {
    assert_eq!(trimmed("\u{3000} a b \t\n"), "a b");
    assert_eq!(trimmed("   "), "");
}

#[test]
fn decimal_text() {
    assert_eq!(decimal(0), "0");
    assert_eq!(decimal(42), "42");
    assert_eq!(decimal(-7), "-7");
    assert_eq!(decimal(i64::MIN), "-9223372036854775808");
    assert_eq!(decimal(i64::MAX), "9223372036854775807");
}

#[test]
fn row_keeps_every_column() {
    let cols = vec![
        ("id".to_string(), ColumnValue::Integer(12)),
        ("message".to_string(), ColumnValue::Text("hello".to_string())),
        ("missing".to_string(), ColumnValue::Null),
        ("id".to_string(), ColumnValue::Text("x".to_string())),
    ];
    let row = row_from_columns(&cols);
    assert_eq!(
        row,
        vec![
            ("id".to_string(), "x".to_string()),
            ("message".to_string(), "hello".to_string()),
            ("missing".to_string(), "null".to_string()),
        ]
    );
}

#[test]
fn backoff_doubles_up_to_cap() {
    assert_eq!(next_backoff(FIRST_BACKOFF_MS), 500);
    assert_eq!(next_backoff(14_999), 29_998);
    assert_eq!(next_backoff(15_000), MAX_BACKOFF_MS);
    assert_eq!(next_backoff(MAX_BACKOFF_MS), MAX_BACKOFF_MS);
    assert_eq!(next_backoff(u64::MAX), MAX_BACKOFF_MS);
}

#[test]
fn worker_ignores_responses() {
    let m = Message::SearchResponse(MessageSearchResponse { id: "r".to_string(), payload: vec![] });
    assert!(matches!(route_message(m), WorkerTask::Ignore));
}

#[test]
fn storage_key_layout() {
    assert_eq!(storage_key_for("logs", "2024-01-02_03_04", "abc"), "logs.2024-01-02_03_04.abc.db");
}

#[test]
fn fresh_shard_is_named_by_minute() {
    let m = ShardMetadata::fresh(90_061).unwrap();
    assert_eq!(m.name, "logs");
    assert_eq!(m.id.len(), 36);
    assert_eq!(&m.id[14..15], "4");
    assert_eq!(m.id.matches('-').count(), 4);
    assert_eq!(m.timestamp, 90_061);
    assert_eq!(m.storage_key, format!("logs.1970-01-02_01_01.{}.db", m.id));
}

#[test]
fn fresh_shard_exists_exactly_within_calendar_range() {
    assert!(ShardMetadata::fresh(EARLIEST_INSTANT).is_some());
    assert!(ShardMetadata::fresh(LATEST_INSTANT).is_some());
    assert!(ShardMetadata::fresh(EARLIEST_INSTANT - 1).is_none());
    assert!(ShardMetadata::fresh(LATEST_INSTANT + 1).is_none());
    let last = ShardMetadata::fresh(LATEST_INSTANT).unwrap();
    assert!(last.storage_key.starts_with("logs.9999-12-31_23_59."));
}

#[test]
fn fresh_shards_get_distinct_ids() {
    let a = ShardMetadata::fresh(0).unwrap();
    let b = ShardMetadata::fresh(0).unwrap();
    assert_ne!(a.id, b.id);
}

#[test]
fn log_record_message() {
    let r = new_log_record("2024-01-01 00:00:00.0 +00:00:00");
    assert_eq!(r.message, "http log 2024-01-01 00:00:00.0 +00:00:00");
    assert_eq!(r.id.len(), 36);
}

fn shard(id: &str) -> ShardMetadata {
    ShardMetadata::describe("logs", id, "2024-01-01_00_00", 0)
}

#[test]
fn rotation_runs_checkpoint_upload_register_replace_flush() {
    let mut rot = ShardRotation::new(shard("one"));
    rot.step(RotationEvent::LogAccepted);
    rot.step(RotationEvent::LogAccepted);
    assert!(matches!(rot.step(RotationEvent::RotateTick), RotationAction::Checkpoint));
    assert_eq!(rot.phase(), Phase::Checkpointing);
    match rot.step(RotationEvent::Checkpointed) {
        RotationAction::Upload(key) => assert_eq!(key, "logs.2024-01-01_00_00.one.db"),
        other => panic!("unexpected {:?}", other),
    }
    rot.step(RotationEvent::LogAccepted);
    match rot.step(RotationEvent::Uploaded) {
        RotationAction::Register(m) => assert_eq!(m.id, "one"),
        other => panic!("unexpected {:?}", other),
    }
    assert!(matches!(rot.step(RotationEvent::Registered), RotationAction::CreateShard));
    assert_eq!(rot.phase(), Phase::Replacing);
    assert_eq!(rot.active().id, "one");
    assert_eq!(rot.accepted(), 3);
    match rot.step(RotationEvent::Created(shard("two"))) {
        RotationAction::CheckpointOutgoing(m) => assert_eq!(m.id, "two"),
        other => panic!("unexpected {:?}", other),
    }
    assert_eq!(rot.active().id, "two");
    assert_eq!(rot.accepted(), 0);
    assert_eq!(rot.phase(), Phase::Sealing);
    rot.step(RotationEvent::LogAccepted);
    assert_eq!(rot.accepted(), 1);
    match rot.step(RotationEvent::Checkpointed) {
        RotationAction::UploadOutgoing(key) => assert_eq!(key, "logs.2024-01-01_00_00.one.db"),
        other => panic!("unexpected {:?}", other),
    }
    match rot.step(RotationEvent::Uploaded) {
        RotationAction::Retire(m) => assert_eq!(m.id, "one"),
        other => panic!("unexpected {:?}", other),
    }
    assert_eq!(rot.phase(), Phase::Ingesting);
    assert_eq!(rot.active().id, "two");
}

#[test]
fn failed_final_upload_keeps_outgoing_file() {
    let mut rot = ShardRotation::new(shard("one"));
    rot.step(RotationEvent::RotateTick);
    rot.step(RotationEvent::Checkpointed);
    rot.step(RotationEvent::Uploaded);
    rot.step(RotationEvent::Registered);
    rot.step(RotationEvent::Created(shard("two")));
    rot.step(RotationEvent::Checkpointed);
    match rot.step(RotationEvent::UploadFailed) {
        RotationAction::Keep(m) => assert_eq!(m.id, "one"),
        other => panic!("unexpected {:?}", other),
    }
    assert_eq!(rot.phase(), Phase::Ingesting);
    assert_eq!(rot.active().id, "two");
}

#[test]
fn fresh_shard_reusing_active_id_is_discarded() {
    let mut rot = ShardRotation::new(shard("one"));
    rot.step(RotationEvent::RotateTick);
    rot.step(RotationEvent::Checkpointed);
    rot.step(RotationEvent::Uploaded);
    rot.step(RotationEvent::Registered);
    match rot.step(RotationEvent::Created(shard("one"))) {
        RotationAction::Discard(m) => assert_eq!(m.id, "one"),
        other => panic!("unexpected {:?}", other),
    }
    assert_eq!(rot.phase(), Phase::Ingesting);
    assert_eq!(rot.active().storage_key, "logs.2024-01-01_00_00.one.db");
}

#[test]
fn upload_failure_keeps_shard_active() {
    let mut rot = ShardRotation::new(shard("one"));
    rot.step(RotationEvent::RotateTick);
    rot.step(RotationEvent::Checkpointed);
    assert!(matches!(rot.step(RotationEvent::UploadFailed), RotationAction::Wait));
    assert_eq!(rot.phase(), Phase::Ingesting);
    assert_eq!(rot.active().id, "one");
}

#[test]
fn sync_tick_uploads_without_rotating() {
    let mut rot = ShardRotation::new(shard("one"));
    assert!(matches!(rot.step(RotationEvent::SyncTick), RotationAction::Checkpoint));
    rot.step(RotationEvent::Checkpointed);
    rot.step(RotationEvent::Uploaded);
    assert!(matches!(rot.step(RotationEvent::Registered), RotationAction::Wait));
    assert_eq!(rot.phase(), Phase::Ingesting);
    assert_eq!(rot.active().id, "one");
}

#[test]
fn tick_during_rotation_waits() {
    let mut rot = ShardRotation::new(shard("one"));
    rot.step(RotationEvent::RotateTick);
    assert!(matches!(rot.step(RotationEvent::RotateTick), RotationAction::Wait));
    assert!(matches!(rot.step(RotationEvent::Created(shard("x"))), RotationAction::Discard(_)));
    assert_eq!(rot.active().id, "one");
}
