use nod::history::{select_entries, AuditEntry, JsonHistoryStore};

fn log(entries: &[(&str, &str)]) -> Vec<AuditEntry> {
    entries.iter().enumerate().map(|(i, (h, o))| AuditEntry::new(h, o, 1_700_000_000 + i as u64)).collect()
}

#[test]
fn missing_file_reads_as_empty_not_an_error() {
    assert!(select_entries(Vec::new(), None, None).is_empty());
}

#[test]
fn recorded_entries_round_trip_and_sort_newest_first() {
    let all = select_entries(log(&[("jello", "completed"), ("atlas", "failed"), ("jello", "rolled_back")]), None, None);
    assert_eq!(all.len(), 3);
    assert_eq!(all[0].host_name, "jello");
    assert_eq!(all[0].outcome, "rolled_back");
    assert_eq!(all[2].host_name, "jello");
    assert_eq!(all[2].outcome, "completed");
}

#[test]
fn entries_narrow_by_host_filter() {
    let jello = select_entries(log(&[("jello", "completed"), ("atlas", "completed")]), Some("jello"), None);
    assert_eq!(jello.len(), 1);
    assert_eq!(jello[0].host_name, "jello");
}

#[test]
fn limit_caps_the_newest_entries() {
    let capped = select_entries(log(&[("a", "ok"), ("b", "ok"), ("c", "ok")]), None, Some(2));
    assert_eq!(capped.len(), 2);
    assert_eq!(capped[0].host_name, "c");
    assert_eq!(capped[1].host_name, "b");
}

#[test]
fn zero_limit_and_large_limit() {
    assert!(select_entries(log(&[("a", "ok")]), None, Some(0)).is_empty());
    assert_eq!(select_entries(log(&[("a", "ok"), ("b", "ok")]), None, Some(9)).len(), 2);
}

#[test]
fn entry_new_keeps_its_values() {
    let entry = AuditEntry::new("atlas", "completed", 1_700_000_000);
    assert_eq!(entry.host_name, "atlas");
    assert_eq!(entry.outcome, "completed");
    assert_eq!(entry.recorded_at, 1_700_000_000);
}

#[test]
fn history_paths_follow_home() {
    assert_eq!(JsonHistoryStore::new(Some("/home/p")).path, "/home/p/.local/share/nod/history.json");
    assert_eq!(JsonHistoryStore::new(None).path, "./.nod/history.json");
    assert_eq!(JsonHistoryStore::new(Some(".")).path, "./.nod/history.json");
    assert_eq!(JsonHistoryStore::at("/tmp/h.json").path, "/tmp/h.json");
}
