//! Directory search, progress parsing, path handling, configuration
//! defaults, and the end-to-end pipeline run.

use zencore::compress::{Archiver, FileData};
use zencore::config::Config;
use zencore::crypto_extended::HashAlgorithm;
use zencore::fuzzer::{FolderEntry, Fuzzer, FuzzerConfig};
use zencore::path_utils::PathUtils;
use zencore::pipeline::run_backup_job;
use zencore::remote::{RemoteDestination, RemoteTransfer};
use zencore::state::StateTracker;
use zencore::FileEntry;

#[test]
fn test_exclude_patterns() {
    let config = FuzzerConfig {
        max_depth: 3,
        exclude_patterns: vec![".git".to_string(), "node_modules".to_string()],
        case_sensitive: false,
    };

    assert_eq!(config.exclude_patterns.len(), 2);
}

#[test]
fn test_case_sensitivity() {
    let config = FuzzerConfig {
        case_sensitive: false,
        ..Default::default()
    };

    assert!(!config.case_sensitive);
}

#[test]
fn test_find_target_folders_filters_and_orders() {
    let entries = vec![
        FolderEntry { path: "/home/u/Music".to_string(), name: "Music".to_string() },
        FolderEntry { path: "/home/u/.git/music".to_string(), name: "music".to_string() },
        FolderEntry { path: "/data/music".to_string(), name: "music".to_string() },
        FolderEntry { path: "/data/Video".to_string(), name: "Video".to_string() },
    ];
    let found = Fuzzer::find_target_folders(&entries, "music");
    assert_eq!(found, vec!["/home/u/Music", "/data/music"]);

    let strict = FuzzerConfig { case_sensitive: true, ..Default::default() };
    let found_cs = Fuzzer::find_target_folders_with_config(&entries, "music", &strict);
    assert_eq!(found_cs, vec!["/data/music"]);
}

#[test]
fn test_folder_info_counts_and_sizes() {
    let listing = vec![
        FileEntry { path: "a".to_string(), size: 5 },
        FileEntry { path: "b".to_string(), size: 7 },
    ];
    assert_eq!(Fuzzer::count_files(&listing), 2);
    assert_eq!(Fuzzer::estimate_size(&listing), 12);
    let info = Fuzzer::get_folder_info("/data", &listing).unwrap();
    assert_eq!(info.path, "/data");
    assert_eq!(info.file_count, 2);
    assert_eq!(info.total_size, 12);

    let huge = vec![
        FileEntry { path: "x".to_string(), size: u64::MAX },
        FileEntry { path: "y".to_string(), size: 2 },
    ];
    assert_eq!(Fuzzer::estimate_size(&huge), u64::MAX);
}

#[test]
fn test_extract_progress() {
    assert_eq!(
        RemoteTransfer::extract_progress("Transferred: 1.2 MiB / 2 MiB, 60%, 100 KiB/s"),
        Some(60)
    );
    assert_eq!(RemoteTransfer::extract_progress("Transferred: 12, 100%"), Some(100));
    assert_eq!(RemoteTransfer::extract_progress("no percent here"), None);
    assert_eq!(RemoteTransfer::extract_progress("weird, x% of y"), None);
    assert_eq!(RemoteTransfer::extract_progress("over, 300%,"), None);
}

#[test]
fn test_remote_destinations() {
    let rc = RemoteDestination::from_rclone("backupbox", "music/archives");
    assert!(matches!(rc, RemoteDestination::Rclone { .. }));
    let db = RemoteDestination::from_database("db.local", 3306, "u", "archive", "backups");
    match db {
        RemoteDestination::Database { host, port, table, .. } => {
            assert_eq!(host, "db.local");
            assert_eq!(port, 3306);
            assert_eq!(table, "backups");
        },
        _ => panic!("expected a database destination"),
    }
}

#[test]
fn test_normalize_separators_and_defaults() {
    assert_eq!(PathUtils::normalize_separators("a\\b\\c"), "a/b/c");
    assert_eq!(PathUtils::normalize_separators("a/b"), "a/b");
    assert_eq!(PathUtils::default_music_folders().len(), 4);
    assert_eq!(PathUtils::default_backup_folders().len(), 4);
    assert_eq!(PathUtils::expand_path("/plain/path").unwrap(), "/plain/path");
}

#[test]
fn test_config_defaults() {
    let config = Config::default();
    assert_eq!(config.default_algorithm, "tar.zst");
    assert_eq!(config.default_cipher, "aes256");
    assert_eq!(config.default_hash_algorithm, "sha256");
    assert!(config.generate_checksum_file);
    assert!(config.verify_after_backup);
    let fc = config.get_fuzzer_config();
    assert_eq!(fc.max_depth, 5);
    assert_eq!(fc.exclude_patterns.len(), 4);
    let presets = config.get_naming_presets();
    assert_eq!(presets.len(), 3);
    assert_eq!(presets[0].1, "daily_{date}");

    let bare = Config { naming_presets: None, fuzzer: None, ..Config::default() };
    assert_eq!(bare.get_naming_presets().len(), 2);
    assert_eq!(bare.get_fuzzer_config().exclude_patterns.len(), 6);
}

#[test]
fn test_end_to_end_backup_scenario() {
    let listing = vec![
        FileEntry { path: "/music/ten.flac".to_string(), size: 10 * 1024 },
        FileEntry { path: "/music/one.txt".to_string(), size: 1024 },
        FileEntry { path: "/music/hundred.wav".to_string(), size: 100 * 1024 },
    ];
    let ordered = zencore::compress::sort_files_by_size(&listing);
    let sizes: Vec<u64> = ordered.iter().map(|f| f.size).collect();
    assert_eq!(sizes, vec![100 * 1024, 10 * 1024, 1024]);

    let files: Vec<FileData> = ordered
        .iter()
        .map(|f| FileData { path: f.path.clone(), data: vec![7u8; f.size as usize] })
        .collect();

    let archiver = Archiver::new(
        "/music".to_string(),
        "/backups".to_string(),
        "run.tar.zst".to_string(),
        "tar.zst".to_string(),
    );
    let outcome = run_backup_job(
        &archiver,
        &files,
        &vec![HashAlgorithm::Sha256],
        "2024-05-06T07:08:09+00:00".to_string(),
        None,
        true,
    )
    .unwrap();

    assert_eq!(outcome.file_list, vec!["hundred.wav", "ten.flac", "one.txt"]);
    assert_eq!(outcome.metadata.file_count, 3);
    assert_eq!(outcome.metadata.name, "run.tar.zst");
    assert!(!outcome.container.is_empty());
    assert_eq!(outcome.metadata.size_bytes as usize, outcome.container.len());
    let sha = outcome.metadata.get_checksum("sha-256").unwrap().clone();
    assert_eq!(sha.len(), 64);
    assert_eq!(outcome.metadata.checksum, sha);
    let sidecar = outcome.sidecar.unwrap();
    assert!(sidecar.starts_with(&sha));
    assert!(sidecar.ends_with("run.tar.zst\n"));

    let mut state = StateTracker::new();
    state.add_archive(outcome.metadata);
    let listed = state.list_archives();
    assert_eq!(listed.len(), 1);
    assert_eq!(listed[0].name, "run.tar.zst");
}

#[test]
fn test_pipeline_with_envelope() {
    let files = vec![FileData { path: "/src/a".to_string(), data: b"data".to_vec() }];
    let archiver = Archiver::new(
        "/src".to_string(),
        "/dst".to_string(),
        "a.tar.gz".to_string(),
        "tar.gz".to_string(),
    );
    let password = "pw".to_string();
    let outcome = run_backup_job(
        &archiver,
        &files,
        &vec![HashAlgorithm::Sha256, HashAlgorithm::Blake3],
        "2024-01-01T00:00:00+00:00".to_string(),
        Some(&password),
        false,
    )
    .unwrap();
    assert!(outcome.metadata.encrypted);
    assert!(outcome.sidecar.is_none());
    assert_eq!(outcome.metadata.checksums.len(), 2);

    let dec = zencore::encrypt_tar::TarEncryptor::new("pw".to_string());
    let plain = dec.decrypt_bytes(&outcome.container).unwrap();
    let (direct, _) = archiver.compress(&files).unwrap();
    assert_eq!(plain, direct);
}
