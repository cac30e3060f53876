//! Template expansion, extension choice and collision-avoidance naming.

use zencore::archive_name::{ArchiveNamer, NamingPresets, TimeParts};

fn fixed_time() -> TimeParts {
    TimeParts {
        date: "20240102_030405".to_string(),
        year: "2024".to_string(),
        month: "01".to_string(),
        day: "02".to_string(),
        hour: "03".to_string(),
        minute: "04".to_string(),
        timestamp: "1704164645".to_string(),
    }
}

#[test]
fn test_template_expansion() {
    let namer = ArchiveNamer::new(
        Some("{source}_{algo}_{date}".to_string()),
        "/tmp".to_string(),
        "tar.zst".to_string(),
        "%Y%m%d".to_string(),
    )
    .with_source_path("/home/user/Music".to_string());

    let result = namer.expand_template("{source}_{algo}", &fixed_time());
    assert!(result.contains("Music_tar.zst"));
}

#[test]
fn test_preview() {
    let namer = ArchiveNamer::new(
        None,
        "/tmp".to_string(),
        "zip".to_string(),
        "%Y%m%d".to_string(),
    );

    let preview = namer.preview("{year}-{month}");
    assert!(preview.contains(".zip"));
}

#[test]
fn test_expand_all_placeholders() {
    let namer = ArchiveNamer::new(
        None,
        "/tmp".to_string(),
        "tar.gz".to_string(),
        "%Y%m%d".to_string(),
    )
    .with_source_path("/data/library/".to_string());

    let t = fixed_time();
    assert_eq!(
        namer.expand_template("{source}-{year}{month}{day}-{hour}{minute}", &t),
        "library-20240102-0304"
    );
    assert_eq!(namer.expand_template("x_{timestamp}", &t), "x_1704164645");
    assert_eq!(namer.expand_template("{algorithm}", &t), "tar.gz");
    assert_eq!(namer.expand_template("plain", &t), "plain");
}

#[test]
fn test_source_without_path_stays_literal() {
    let namer = ArchiveNamer::new(
        None,
        "/tmp".to_string(),
        "zip".to_string(),
        "%Y%m%d".to_string(),
    );
    assert_eq!(
        namer.expand_template("{source}_a", &fixed_time()),
        "{source}_a"
    );
}

#[test]
fn test_get_extension() {
    let mk = |algo: &str| {
        ArchiveNamer::new(
            None,
            "/tmp".to_string(),
            algo.to_string(),
            "%Y%m%d".to_string(),
        )
    };
    assert_eq!(mk("tar.gz").get_extension(), "tar.gz");
    assert_eq!(mk("tar.zst").get_extension(), "tar.zst");
    assert_eq!(mk("zip").get_extension(), "zip");
    assert_eq!(mk("7z").get_extension(), "archive");
}

#[test]
fn test_collision_counters() {
    let existing = vec!["backup.tar.zst".to_string()];
    assert_eq!(
        zencore::archive_name::resolve_collision("backup", "tar.zst", &existing),
        "backup.1.tar.zst"
    );

    let existing2 = vec!["backup.tar.zst".to_string(), "backup.1.tar.zst".to_string()];
    assert_eq!(
        zencore::archive_name::resolve_collision("backup", "tar.zst", &existing2),
        "backup.2.tar.zst"
    );
}

#[test]
fn test_collision_free_name_kept() {
    let existing = vec!["other.tar.zst".to_string()];
    assert_eq!(
        zencore::archive_name::resolve_collision("backup", "tar.zst", &existing),
        "backup.tar.zst"
    );
}

#[test]
fn test_generate_uses_collision_rule() {
    let namer = ArchiveNamer::new(
        Some("backup".to_string()),
        "/tmp".to_string(),
        "tar.zst".to_string(),
        "%Y%m%d".to_string(),
    );
    let existing = vec!["backup.tar.zst".to_string()];
    assert_eq!(namer.generate(&existing).unwrap(), "backup.1.tar.zst");
}

#[test]
fn test_presets() {
    let presets = NamingPresets::all();
    assert_eq!(presets.len(), 6);
    assert_eq!(presets[0].1, "{date}");
    assert_eq!(presets[5], ("Timestamp", "backup_{timestamp}"));

    let namer = ArchiveNamer::new(
        None,
        "/tmp".to_string(),
        "zip".to_string(),
        "%Y%m%d".to_string(),
    )
    .with_source_path("/home/user/Music".to_string());
    let example = NamingPresets::get_example("{source}_{algo}", &namer);
    assert_eq!(example, "Music_zip.zip");
}

#[test]
fn test_invalid_date_format_falls_back() {
    let namer = ArchiveNamer::new(
        None,
        "/tmp".to_string(),
        "tar.zst".to_string(),
        "%Q".to_string(),
    );
    let name = namer.generate(&Vec::new()).unwrap();
    assert!(name.ends_with(".tar.zst"));
}

#[test]
fn test_base_name_edge_cases() {
    assert_eq!(zencore::archive_name::base_name("/home/user/Music"), "Music");
    assert_eq!(zencore::archive_name::base_name("/home/user/Music/"), "Music");
    assert_eq!(zencore::archive_name::base_name("/"), "archive");
    assert_eq!(zencore::archive_name::base_name(""), "archive");
    assert_eq!(zencore::archive_name::base_name("/a/.."), "archive");
}
