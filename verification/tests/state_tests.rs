//! The archive state store: upserts, lookups, ordering, and schema
//! migration of legacy records.

use zencore::state::{ArchiveMetadata, StateTracker};

fn record(name: &str, created_at: &str) -> ArchiveMetadata {
    ArchiveMetadata {
        name: name.to_string(),
        created_at: created_at.to_string(),
        checksum: String::new(),
        checksums: Vec::new(),
        algorithm: "tar.zst".to_string(),
        size_bytes: 1,
        file_count: 1,
        encrypted: false,
        contents: vec!["a".to_string()],
    }
}

#[test]
fn test_add_and_get() {
    let mut state = StateTracker::new();
    state.add_archive(record("music.tar.zst", "2024-01-02T03:04:05+00:00"));
    assert_eq!(state.archive_count(), 1);
    let found = state.get_archive("music.tar.zst").unwrap();
    assert_eq!(found.algorithm, "tar.zst");
    assert!(state.get_archive("other").is_none());
}

#[test]
fn test_put_is_an_upsert_by_name() {
    let mut state = StateTracker::new();
    state.add_archive(record("same.tar.zst", "2024-01-01T00:00:00+00:00"));
    let mut newer = record("same.tar.zst", "2024-06-01T00:00:00+00:00");
    newer.size_bytes = 999;
    state.add_archive(newer);
    assert_eq!(state.archive_count(), 1);
    assert_eq!(state.get_archive("same.tar.zst").unwrap().size_bytes, 999);
}

#[test]
fn test_list_orders_most_recent_first() {
    let mut state = StateTracker::new();
    state.add_archive(record("old", "2023-01-01T00:00:00+00:00"));
    state.add_archive(record("new", "2025-01-01T00:00:00+00:00"));
    state.add_archive(record("mid", "2024-01-01T00:00:00+00:00"));
    let names: Vec<&str> = state.list_archives().iter().map(|m| m.name.as_str()).collect();
    assert_eq!(names, vec!["new", "mid", "old"]);
}

#[test]
fn test_remove_archve() {
    let mut state = StateTracker::new();
    state.add_archive(record("a", "1"));
    state.add_archive(record("b", "2"));
    let removed = state.remove_archve("a").unwrap();
    assert_eq!(removed.name, "a");
    assert_eq!(state.archive_count(), 1);
    assert!(state.remove_archve("a").is_none());
}

#[test]
fn test_migration_exposes_legacy_digest() {
    let mut legacy_only = record("old-schema", "2022-01-01T00:00:00+00:00");
    legacy_only.checksum = "00aa11bb".to_string();
    let mut state = StateTracker::new();
    state.add_archive(legacy_only);

    state.migrate_old_format();

    let migrated = state.get_archive("old-schema").unwrap();
    assert_eq!(migrated.get_checksum("SHA-256").unwrap(), "00aa11bb");
    assert_eq!(migrated.get_checksum("sha-256").unwrap(), "00aa11bb");
    assert_eq!(migrated.checksums.len(), 1);
    assert_eq!(migrated.checksum, "00aa11bb");
}

#[test]
fn test_migration_leaves_current_records_alone() {
    let mut current = record("new-schema", "2024-01-01T00:00:00+00:00");
    current.add_checksum("sha-256", "ff".to_string());
    let before = current.checksums.clone();
    let mut state = StateTracker::new();
    state.add_archive(current);
    state.migrate_old_format();
    assert_eq!(state.get_archive("new-schema").unwrap().checksums, before);
}

#[test]
fn test_add_checksum_normalizes_and_mirrors() {
    let mut m = record("r", "1");
    m.add_checksum("sha-256", "aa11".to_string());
    assert_eq!(m.checksum, "aa11");
    assert_eq!(m.get_checksum("SHA-256").unwrap(), "aa11");

    m.add_checksum("blake3", "bb22".to_string());
    assert_eq!(m.checksum, "aa11");
    assert_eq!(m.get_checksum("Blake3").unwrap(), "bb22");

    m.add_checksum("SHA-256", "cc33".to_string());
    assert_eq!(m.checksum, "cc33");
    assert_eq!(m.get_checksum("sha-256").unwrap(), "cc33");
    assert_eq!(m.checksums.len(), 2);
    assert!(m.get_checksum("sha3-256").is_none());

    // The bare spelling lands under the canonical hyphenated key, so the
    // legacy field always mirrors the digest set's SHA-256 entry.
    m.add_checksum("sha256", "dd77".to_string());
    assert_eq!(m.checksums.len(), 2);
    assert!(m.checksums.contains(&("SHA-256".to_string(), "dd77".to_string())));
    assert_eq!(m.checksum, "dd77");
    assert_eq!(m.get_checksum("SHA256").unwrap(), "dd77");
}

#[test]
fn test_legacy_fallback_answers_for_sha256_only() {
    let mut m = record("r", "1");
    m.checksum = "dd44".to_string();
    assert_eq!(m.get_checksum("sha256").unwrap(), "dd44");
    assert_eq!(m.get_checksum("SHA-256").unwrap(), "dd44");
    assert!(m.get_checksum("blake3").is_none());
}

#[test]
fn test_list_checksums_appends_legacy_when_missing() {
    let mut m = record("r", "1");
    m.checksum = "ee55".to_string();
    m.checksums.push(("BLAKE3".to_string(), "bb".to_string()));
    let listed = m.list_checksums();
    assert_eq!(
        listed,
        vec![
            ("BLAKE3".to_string(), "bb".to_string()),
            ("SHA-256".to_string(), "ee55".to_string()),
        ]
    );

    m.add_checksum("sha256", "ff66".to_string());
    let listed2 = m.list_checksums();
    assert_eq!(
        listed2,
        vec![
            ("BLAKE3".to_string(), "bb".to_string()),
            ("SHA-256".to_string(), "ff66".to_string()),
        ]
    );
}

#[test]
fn test_list_checksums_sorted_by_name() {
    let mut m = record("r", "1");
    m.add_checksum("sha3-256", "33".to_string());
    m.add_checksum("sha-256", "22".to_string());
    m.add_checksum("blake3", "11".to_string());
    let listed = m.list_checksums();
    assert_eq!(
        listed,
        vec![
            ("BLAKE3".to_string(), "11".to_string()),
            ("SHA-256".to_string(), "22".to_string()),
            ("SHA3-256".to_string(), "33".to_string()),
        ]
    );
}
