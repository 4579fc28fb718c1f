use logsearch::catalog::{ShardCatalog, DEFAULT_WINDOW_SECS};
use logsearch::shard::ShardMetadata;

fn meta(id: &str, name: &str, ts: i64) -> ShardMetadata {
    ShardMetadata {
        name: name.to_string(),
        id: id.to_string(),
        storage_key: format!("{}.{}.db", name, id),
        timestamp: ts,
    }
}

#[test]
fn duplicate_registration_keeps_one_row() {
    let mut catalog = ShardCatalog::new();
    let m = meta("a1", "logs", 1_000);
    let mut added = 0;
    for _ in 0..10 {
        if catalog.upsert(m.clone()) {
            added += 1;
        }
    }
    assert_eq!(added, 1);
    assert_eq!(catalog.len(), 1);
}

#[test]
fn upserts_keep_one_row_per_id() {
    let mut catalog = ShardCatalog::new();
    for id in ["a", "b", "a", "c", "b", "a"] {
        catalog.upsert(meta(id, "logs", 10));
    }
    assert_eq!(catalog.len(), 3);
    assert!(catalog.contains("a") && catalog.contains("b") && catalog.contains("c"));
    assert!(!catalog.contains("d"));
}

#[test]
fn first_registration_wins() {
    let mut catalog = ShardCatalog::new();
    catalog.upsert(meta("x", "logs", 10));
    catalog.upsert(meta("x", "other", 20));
    let rows = catalog.select_by_name_and_window("logs", 0);
    assert_eq!(rows.len(), 1);
    assert_eq!(rows[0].timestamp, 10);
    assert!(catalog.select_by_name_and_window("other", 0).is_empty());
}

#[test]
fn oversize_window_excludes_old_shard() {
    let now = 1_700_000_000;
    let mut catalog = ShardCatalog::new();
    catalog.upsert(meta("old", "logs", now - 120 * 60));
    assert!(catalog.candidates("logs", now, DEFAULT_WINDOW_SECS).is_empty());
}

#[test]
fn window_selects_by_name_and_time() {
    let now = 1_700_000_000;
    let mut catalog = ShardCatalog::new();
    catalog.upsert(meta("a", "logs", now - 10));
    catalog.upsert(meta("b", "metrics", now - 10));
    catalog.upsert(meta("c", "logs", now - 3600));
    catalog.upsert(meta("d", "logs", now - 3599));
    let rows = catalog.candidates("logs", now, DEFAULT_WINDOW_SECS);
    let ids: Vec<&str> = rows.iter().map(|m| m.id.as_str()).collect();
    assert_eq!(ids, vec!["a", "d"]);
}
