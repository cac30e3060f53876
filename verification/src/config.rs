//! Tool configuration: the value object the surrounding code loads from
//! disk and hands to the pipeline, with its documented defaults.
//!
//! Reading and writing the configuration document is the surrounding
//! code's concern; the defaults and the derived accessors are verified
//! here.

use vstd::prelude::*;

use crate::fuzzer::FuzzerConfig;

verus! {

/// How the tool behaves when the user does not say otherwise.
pub struct Config {
    pub default_algorithm: String,
    pub date_format: String,
    pub music_folders: Vec<String>,
    pub backup_folders: Vec<String>,
    pub default_backup_destination: String,
    pub encrypt_by_default: bool,
    pub default_cipher: String,
    pub default_hash_algorithm: String,
    pub num_threads: usize,
    pub compression_level: Option<i32>,
    pub generate_checksum_file: bool,
    pub verify_after_backup: bool,
    pub remote: Option<RemoteConfig>,
    pub fuzzer: Option<FuzzerSettings>,
    pub naming_presets: Option<Vec<NamingPreset>>,
}

/// Remote upload settings.
pub struct RemoteConfig {
    pub enabled: bool,
    pub auto_upload: bool,
    pub rclone: Option<RcloneConfig>,
    pub database: Option<DatabaseConfig>,
}

/// Settings of the sync-tool remote.
pub struct RcloneConfig {
    pub remote_name: String,
    pub remote_path: String,
    pub verify_after_upload: bool,
}

/// Settings of the database destination.
pub struct DatabaseConfig {
    pub host: String,
    pub port: u16,
    pub username: String,
    pub password: Option<String>,
    pub database: String,
    pub table: String,
}

/// Settings of the directory search.
pub struct FuzzerSettings {
    pub max_depth: usize,
    pub exclude_patterns: Vec<String>,
    pub case_sensitive: bool,
}

/// A named naming template.
pub struct NamingPreset {
    pub name: String,
    pub template: String,
    pub description: String,
}

/// The default container kind.
pub fn default_algorithm() -> (r: String)
    ensures
        r@ == "tar.zst"@,
{
    String::from_str("tar.zst")
}

/// The default date format of generated names.
pub fn default_date_format() -> (r: String)
    ensures
        r@ == "%Y%m%d_%H%M%S"@,
{
    String::from_str("%Y%m%d_%H%M%S")
}

/// The default places to look for a music collection.
pub fn default_music_folders() -> (r: Vec<String>)
    ensures
        r.deep_view() =~~= seq!["~/Music"@, "~/Documents/Music"@],
{
    let mut r: Vec<String> = Vec::new();
    r.push(String::from_str("~/Music"));
    r.push(String::from_str("~/Documents/Music"));
    r
}

/// The default places to keep backups.
pub fn default_backup_folders() -> (r: Vec<String>)
    ensures
        r.deep_view() =~~= seq!["~/Backups"@, "~/Documents/Backups"@],
{
    let mut r: Vec<String> = Vec::new();
    r.push(String::from_str("~/Backups"));
    r.push(String::from_str("~/Documents/Backups"));
    r
}

/// The default AEAD cipher name.
pub fn default_cipher() -> (r: String)
    ensures
        r@ == "aes256"@,
{
    String::from_str("aes256")
}

/// The default digest algorithm name.
pub fn default_hash_algorithm() -> (r: String)
    ensures
        r@ == "sha256"@,
{
    String::from_str("sha256")
}

/// The default of the boolean settings that are on unless disabled.
pub fn default_true() -> (r: bool)
    ensures
        r == true,
{
    true
}

/// The default database port.
pub fn default_mysql_port() -> (r: u16)
    ensures
        r == 3306,
{
    3306
}

/// The default database table name.
pub fn default_table_name() -> (r: String)
    ensures
        r@ == "backups"@,
{
    String::from_str("backups")
}

/// The default search depth.
pub fn default_max_depth() -> (r: usize)
    ensures
        r == 5,
{
    5
}

/// The default exclusion patterns of the directory search.
pub fn default_exclude_patterns() -> (r: Vec<String>)
    ensures
        r.deep_view() =~~= seq![".git"@, "node_modules"@, ".cache"@, "target"@],
{
    let mut r: Vec<String> = Vec::new();
    r.push(String::from_str(".git"));
    r.push(String::from_str("node_modules"));
    r.push(String::from_str(".cache"));
    r.push(String::from_str("target"));
    r
}

impl Default for Config {
    /// The configuration a fresh installation starts from.
    fn default() -> (r: Self)
        ensures
            r.default_algorithm@ == "tar.zst"@,
            r.date_format@ == "%Y%m%d_%H%M%S"@,
            r.music_folders.deep_view() =~~= seq!["~/Music"@, "~/Documents/Music"@],
            r.backup_folders.deep_view() =~~= seq!["~/Backups"@, "~/Documents/Backups"@],
            r.default_backup_destination@ == Seq::<char>::empty(),
            r.encrypt_by_default == false,
            r.default_cipher@ == "aes256"@,
            r.default_hash_algorithm@ == "sha256"@,
            r.num_threads == 0,
            r.compression_level is None,
            r.generate_checksum_file == true,
            r.verify_after_backup == true,
            r.remote is None,
            r.fuzzer is Some,
            r.fuzzer->0.max_depth == 5,
            r.fuzzer->0.exclude_patterns.deep_view() =~~= seq![
                ".git"@,
                "node_modules"@,
                ".cache"@,
                "target"@,
            ],
            r.fuzzer->0.case_sensitive == false,
            r.naming_presets is Some,
            r.naming_presets->0@.len() == 3,
            r.naming_presets->0@[0].template@ == "daily_{date}"@,
            r.naming_presets->0@[1].template@ == "{source}_{date}"@,
            r.naming_presets->0@[2].template@ == "prod_{source}_{year}{month}{day}"@,
    {
        let mut presets: Vec<NamingPreset> = Vec::new();
        presets.push(
            NamingPreset {
                name: String::from_str("Daily Backup"),
                template: String::from_str("daily_{date}"),
                description: String::from_str("Daily backup with timestamp"),
            },
        );
        presets.push(
            NamingPreset {
                name: String::from_str("Source + Date"),
                template: String::from_str("{source}_{date}"),
                description: String::from_str("Source folder name with date"),
            },
        );
        presets.push(
            NamingPreset {
                name: String::from_str("Production"),
                template: String::from_str("prod_{source}_{year}{month}{day}"),
                description: String::from_str("Production backup format"),
            },
        );
        Config {
            default_algorithm: default_algorithm(),
            date_format: default_date_format(),
            music_folders: default_music_folders(),
            backup_folders: default_backup_folders(),
            default_backup_destination: String::new(),
            encrypt_by_default: false,
            default_cipher: default_cipher(),
            default_hash_algorithm: default_hash_algorithm(),
            num_threads: 0,
            compression_level: None,
            generate_checksum_file: true,
            verify_after_backup: true,
            remote: None,
            fuzzer: Some(
                FuzzerSettings {
                    max_depth: default_max_depth(),
                    exclude_patterns: default_exclude_patterns(),
                    case_sensitive: false,
                },
            ),
            naming_presets: Some(presets),
        }
    }
}

impl Config {
    /// The directory-search configuration: the configured settings, or
    /// the search's own defaults when none are set.
    pub fn get_fuzzer_config(&self) -> (r: FuzzerConfig)
        ensures
            self.fuzzer is Some ==> {
                &&& r.max_depth == self.fuzzer->0.max_depth
                &&& r.exclude_patterns.deep_view() == self.fuzzer->0.exclude_patterns.deep_view()
                &&& r.case_sensitive == self.fuzzer->0.case_sensitive
            },
            self.fuzzer is None ==> {
                &&& r.max_depth == 5
                &&& r.exclude_patterns.deep_view() =~~= seq![
                    ".git"@,
                    "node_modules"@,
                    ".cache"@,
                    "target"@,
                    "tmp"@,
                    "var"@,
                ]
                &&& r.case_sensitive == false
            },
    {
        match &self.fuzzer {
            Some(fuzzer) => {
                let mut patterns: Vec<String> = Vec::new();
                let n = fuzzer.exclude_patterns.len();
                for i in 0..n
                    invariant
                        n == fuzzer.exclude_patterns@.len(),
                        patterns@.len() == i,
                        patterns.deep_view() =~~= fuzzer.exclude_patterns.deep_view().take(
                            i as int,
                        ),
                {
                    patterns.push(fuzzer.exclude_patterns[i].clone());
                    assert(patterns.deep_view() =~~= fuzzer.exclude_patterns.deep_view().take(
                        i + 1,
                    ));
                }
                proof {
                    assert(patterns.deep_view() =~~= fuzzer.exclude_patterns.deep_view());
                }
                FuzzerConfig {
                    max_depth: fuzzer.max_depth,
                    exclude_patterns: patterns,
                    case_sensitive: fuzzer.case_sensitive,
                }
            },
            None => FuzzerConfig::default(),
        }
    }

    /// The naming presets to offer: the configured ones as (name,
    /// template) pairs, or two built-in fallbacks.
    pub fn get_naming_presets(&self) -> (r: Vec<(String, String)>)
        ensures
            self.naming_presets is Some ==> r@.map_values(
                |p: (String, String)| (p.0@, p.1@),
            ) =~~= self.naming_presets->0@.map_values(
                |p: NamingPreset| (p.name@, p.template@),
            ),
            self.naming_presets is None ==> r@.map_values(|p: (String, String)| (p.0@, p.1@))
                =~~= seq![("Default"@, "{date}"@), ("Source + Date"@, "{source}_{date}"@)],
    {
        match &self.naming_presets {
            Some(presets) => {
                let mut out: Vec<(String, String)> = Vec::new();
                let n = presets.len();
                for i in 0..n
                    invariant
                        n == presets@.len(),
                        out@.len() == i,
                        out@.map_values(|p: (String, String)| (p.0@, p.1@)) =~~= presets@.map_values(
                            |p: NamingPreset| (p.name@, p.template@),
                        ).take(i as int),
                {
                    out.push((presets[i].name.clone(), presets[i].template.clone()));
                    assert(out@.map_values(|p: (String, String)| (p.0@, p.1@))
                        =~~= presets@.map_values(|p: NamingPreset| (p.name@, p.template@)).take(
                        i + 1,
                    ));
                }
                proof {
                    assert(out@.map_values(|p: (String, String)| (p.0@, p.1@))
                        =~~= presets@.map_values(|p: NamingPreset| (p.name@, p.template@)));
                }
                out
            },
            None => {
                let mut out: Vec<(String, String)> = Vec::new();
                out.push((String::from_str("Default"), String::from_str("{date}")));
                out.push(
                    (String::from_str("Source + Date"), String::from_str("{source}_{date}")),
                );
                proof {
                    assert(out@.map_values(|p: (String, String)| (p.0@, p.1@)) =~~= seq![
                        ("Default"@, "{date}"@),
                        ("Source + Date"@, "{source}_{date}"@),
                    ]);
                }
                out
            },
        }
    }
}

} // verus!
