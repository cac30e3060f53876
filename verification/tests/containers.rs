//! The container encoder: entry lists, compression levels, size sorting,
//! and decodability of the produced containers.

use std::io::Read;

use zencore::compress::{Archiver, ContainerKind, FileData};
use zencore::ArchiveError;
use zencore::FileEntry;

fn sample_files() -> Vec<FileData> {
    vec![
        FileData { path: "/src/a.txt".to_string(), data: b"alpha".to_vec() },
        FileData { path: "/src/sub/b.txt".to_string(), data: b"beta beta".to_vec() },
        FileData { path: "/src/c.bin".to_string(), data: vec![0u8, 1, 2, 3] },
    ]
}

fn archiver(kind: &str) -> Archiver {
    Archiver::new(
        "/src".to_string(),
        "/dst".to_string(),
        format!("out.{}", kind),
        kind.to_string(),
    )
}

#[test]
fn test_entry_list_matches_collector_paths() {
    for kind in ["tar.gz", "tar.zst", "zip"] {
        let (_, list) = archiver(kind).compress(&sample_files()).unwrap();
        assert_eq!(list, vec!["a.txt", "sub/b.txt", "c.bin"]);
    }
}

#[test]
fn test_unsupported_kind_rejected() {
    let r = archiver("7z").compress(&sample_files());
    assert_eq!(r.unwrap_err(), ArchiveError::UnsupportedContainerKind);
}

#[test]
fn test_path_outside_root_rejected() {
    let mut files = sample_files();
    files.push(FileData { path: "/elsewhere/d.txt".to_string(), data: vec![1] });
    let r = archiver("tar.gz").compress(&files);
    assert_eq!(r.unwrap_err(), ArchiveError::PathInvalid);
}

#[test]
fn test_targz_container_decodes_back() {
    let (bytes, _) = archiver("tar.gz").compress(&sample_files()).unwrap();
    let gz = flate2::read::GzDecoder::new(bytes.as_slice());
    let mut archive = tar::Archive::new(gz);
    let mut names = Vec::new();
    let mut contents = Vec::new();
    for entry in archive.entries().unwrap() {
        let mut entry = entry.unwrap();
        names.push(entry.path().unwrap().to_string_lossy().to_string());
        let mut data = Vec::new();
        entry.read_to_end(&mut data).unwrap();
        contents.push(data);
    }
    assert_eq!(names, vec!["a.txt", "sub/b.txt", "c.bin"]);
    assert_eq!(contents[0], b"alpha");
    assert_eq!(contents[1], b"beta beta");
    assert_eq!(contents[2], vec![0u8, 1, 2, 3]);
}

#[test]
fn test_tarzst_container_decodes_back() {
    let (bytes, _) = archiver("tar.zst").compress(&sample_files()).unwrap();
    let plain = zstd::stream::decode_all(bytes.as_slice()).unwrap();
    let mut archive = tar::Archive::new(plain.as_slice());
    let names: Vec<String> = archive
        .entries()
        .unwrap()
        .map(|e| e.unwrap().path().unwrap().to_string_lossy().to_string())
        .collect();
    assert_eq!(names, vec!["a.txt", "sub/b.txt", "c.bin"]);
}

#[test]
fn test_zip_container_decodes_back() {
    let (bytes, _) = archiver("zip").compress(&sample_files()).unwrap();
    let cursor = std::io::Cursor::new(bytes);
    let mut archive = zip::ZipArchive::new(cursor).unwrap();
    assert_eq!(archive.len(), 3);
    let mut first = archive.by_index(0).unwrap();
    assert_eq!(first.name(), "a.txt");
    let mut data = Vec::new();
    first.read_to_end(&mut data).unwrap();
    assert_eq!(data, b"alpha");
}

#[test]
fn test_zip_password_protects_entries() {
    let (bytes, _) = archiver("zip")
        .with_password("secret".to_string())
        .compress(&sample_files())
        .unwrap();
    let cursor = std::io::Cursor::new(bytes);
    let mut archive = zip::ZipArchive::new(cursor).unwrap();
    assert!(archive.by_index(0).is_err());
    let mut entry = archive.by_index_decrypt(0, b"secret").unwrap();
    let mut data = Vec::new();
    entry.read_to_end(&mut data).unwrap();
    assert_eq!(data, b"alpha");
}

#[test]
fn test_invalid_level_falls_back_to_default() {
    let files = sample_files();
    let (with_invalid, _) = archiver("tar.gz")
        .with_compression_level(99)
        .compress(&files)
        .unwrap();
    let (with_default, _) = archiver("tar.gz").compress(&files).unwrap();
    assert_eq!(with_invalid, with_default);

    let (zst_invalid, _) = archiver("tar.zst")
        .with_compression_level(0)
        .compress(&files)
        .unwrap();
    let (zst_default, _) = archiver("tar.zst").compress(&files).unwrap();
    assert_eq!(zst_invalid, zst_default);
}

#[test]
fn test_valid_level_changes_output() {
    let big = FileData {
        path: "/src/big.txt".to_string(),
        data: b"abcdefgh".repeat(4096),
    };
    let files = vec![big];
    let (fast, _) = archiver("tar.zst")
        .with_compression_level(1)
        .compress(&files)
        .unwrap();
    let (strong, _) = archiver("tar.zst")
        .with_compression_level(19)
        .compress(&files)
        .unwrap();
    let plain_fast = zstd::stream::decode_all(fast.as_slice()).unwrap();
    let plain_strong = zstd::stream::decode_all(strong.as_slice()).unwrap();
    assert_eq!(plain_fast, plain_strong);
}

#[test]
fn test_resolve_level() {
    assert_eq!(zencore::compress::resolve_level(ContainerKind::TarGz, None), 6);
    assert_eq!(zencore::compress::resolve_level(ContainerKind::TarZst, None), 3);
    assert_eq!(zencore::compress::resolve_level(ContainerKind::Zip, Some(4)), 4);
    assert_eq!(zencore::compress::resolve_level(ContainerKind::TarZst, Some(22)), 22);
    assert_eq!(zencore::compress::resolve_level(ContainerKind::TarZst, Some(23)), 3);
    assert_eq!(zencore::compress::resolve_level(ContainerKind::TarGz, Some(-1)), 6);
    assert!(zencore::compress::level_is_valid(ContainerKind::Zip, 0));
    assert!(!zencore::compress::level_is_valid(ContainerKind::TarZst, 0));
    assert!(!zencore::compress::level_is_valid(ContainerKind::TarGz, 10));
}

#[test]
fn test_sort_by_size_descending_stable() {
    let files = vec![
        FileEntry { path: "ten".to_string(), size: 10_240 },
        FileEntry { path: "one".to_string(), size: 1_024 },
        FileEntry { path: "hundred".to_string(), size: 102_400 },
        FileEntry { path: "one-too".to_string(), size: 1_024 },
    ];
    let sorted = zencore::compress::sort_files_by_size(&files);
    let order: Vec<&str> = sorted.iter().map(|f| f.path.as_str()).collect();
    assert_eq!(order, vec!["hundred", "ten", "one", "one-too"]);
}

#[test]
fn test_empty_source_is_a_valid_job() {
    let (bytes, list) = archiver("tar.gz").compress(&Vec::new()).unwrap();
    assert!(list.is_empty());
    let gz = flate2::read::GzDecoder::new(bytes.as_slice());
    let mut archive = tar::Archive::new(gz);
    assert_eq!(archive.entries().unwrap().count(), 0);
}

#[test]
fn test_builders_and_threads() {
    let a = archiver("tar.gz")
        .with_threads(3)
        .with_compression_level(2)
        .with_size_sorting(false);
    assert_eq!(a.num_threads, 3);
    assert_eq!(a.compression_level, Some(2));
    assert!(!a.sort_by_size);
    assert_eq!(a.effective_threads(), 3);
    let auto = archiver("tar.gz");
    assert!(auto.effective_threads() >= 1);
}
