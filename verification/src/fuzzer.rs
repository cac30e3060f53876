//! Directory search: filters walked directory entries by name (optionally
//! case-insensitively) and by exclusion patterns, and summarizes folders.
//!
//! Walking the disk itself is behind a trusted wrapper; everything that
//! decides which folders match is verified.

use vstd::prelude::*;

use crate::error::ArchiveError;
use crate::text::{contains_seq, lower_seq, str_contains, str_eq};
use crate::FileEntry;

verus! {

/// How the directory search matches candidates.
pub struct FuzzerConfig {
    /// How deep below each base path the walk descends.
    pub max_depth: usize,
    /// A directory whose path contains one of these is skipped.
    pub exclude_patterns: Vec<String>,
    /// Whether the target name must match exactly or up to ASCII case.
    pub case_sensitive: bool,
}

impl Default for FuzzerConfig {
    /// Depth 5, the usual build and cache directories excluded, and
    /// case-insensitive matching.
    fn default() -> (r: Self)
        ensures
            r.max_depth == 5,
            r.exclude_patterns.deep_view() =~~= seq![
                ".git"@,
                "node_modules"@,
                ".cache"@,
                "target"@,
                "tmp"@,
                "var"@,
            ],
            r.case_sensitive == false,
    {
        let mut exclude_patterns: Vec<String> = Vec::new();
        exclude_patterns.push(String::from_str(".git"));
        exclude_patterns.push(String::from_str("node_modules"));
        exclude_patterns.push(String::from_str(".cache"));
        exclude_patterns.push(String::from_str("target"));
        exclude_patterns.push(String::from_str("tmp"));
        exclude_patterns.push(String::from_str("var"));
        FuzzerConfig { max_depth: 5, exclude_patterns, case_sensitive: false }
    }
}

/// A directory found beneath a base path: its full path and its name.
pub struct FolderEntry {
    pub path: String,
    pub name: String,
}

/// Relies on `walkdir::WalkDir` with `max_depth`: every directory at most
/// `max_depth` levels beneath the base, in discovery order; unreadable
/// entries are skipped.  What comes back depends on the disk, so nothing
/// is claimed of it.
#[verifier::external_body]
pub fn walk_dirs(base: &str, max_depth: usize) -> (r: Vec<FolderEntry>) {
    let mut out = Vec::new();
    for entry in walkdir::WalkDir::new(base).max_depth(max_depth).into_iter().filter_map(
        |e| e.ok(),
    ) {
        if entry.file_type().is_dir() {
            let path = entry.path().to_string_lossy().to_string();
            let name = entry.file_name().to_string_lossy().to_string();
            out.push(FolderEntry { path, name });
        }
    }
    out
}

/// True when the path contains one of the exclusion patterns.
pub open spec fn path_excluded(path: Seq<char>, patterns: Seq<Seq<char>>) -> bool {
    exists|k: int| 0 <= k < patterns.len() && contains_seq(path, #[trigger] patterns[k])
}

/// True when a directory name matches the target under the configured
/// case rule.
pub open spec fn name_matches(name: Seq<char>, target: Seq<char>, case_sensitive: bool) -> bool {
    if case_sensitive {
        name == target
    } else {
        lower_seq(name) == lower_seq(target)
    }
}

/// Whether the search keeps a directory entry.
pub open spec fn entry_kept(
    e: FolderEntry,
    target: Seq<char>,
    patterns: Seq<Seq<char>>,
    case_sensitive: bool,
) -> bool {
    !path_excluded(e.path@, patterns) && name_matches(e.name@, target, case_sensitive)
}

/// The paths of the kept entries, in input order.
pub open spec fn kept_paths(
    s: Seq<FolderEntry>,
    target: Seq<char>,
    patterns: Seq<Seq<char>>,
    case_sensitive: bool,
) -> Seq<Seq<char>>
    decreases s.len(),
{
    if s.len() == 0 {
        Seq::empty()
    } else {
        let rest = kept_paths(s.drop_last(), target, patterns, case_sensitive);
        if entry_kept(s.last(), target, patterns, case_sensitive) {
            rest.push(s.last().path@)
        } else {
            rest
        }
    }
}

/// Decide whether the path contains one of the exclusion patterns.
fn check_excluded(path: &str, patterns: &Vec<String>) -> (r: bool)
    ensures
        r == path_excluded(path@, patterns.deep_view()),
{
    let n = patterns.len();
    for k in 0..n
        invariant
            n == patterns@.len(),
            forall|j: int| 0 <= j < k ==> !contains_seq(path@, #[trigger] patterns.deep_view()[j]),
    {
        if str_contains(path, patterns[k].as_str()) {
            assert(contains_seq(path@, patterns.deep_view()[k as int]));
            return true;
        }
    }
    false
}

/// Folder search over walked directory entries.
pub struct Fuzzer;

impl Fuzzer {
    /// The paths of the entries whose name matches `target` under the
    /// given configuration and whose path no exclusion pattern hits,
    /// in input order.
    pub fn find_target_folders_with_config(
        entries: &Vec<FolderEntry>,
        target: &str,
        config: &FuzzerConfig,
    ) -> (r: Vec<String>)
        ensures
            r.deep_view() == kept_paths(
                entries@,
                target@,
                config.exclude_patterns.deep_view(),
                config.case_sensitive,
            ),
    {
        let ghost tv = target@;
        let ghost pv = config.exclude_patterns.deep_view();
        let ghost cs = config.case_sensitive;
        let mut out: Vec<String> = Vec::new();
        let n = entries.len();
        proof {
            assert(out.deep_view() =~~= kept_paths(entries@.take(0), tv, pv, cs));
        }
        for i in 0..n
            invariant
                n == entries@.len(),
                tv == target@,
                pv == config.exclude_patterns.deep_view(),
                cs == config.case_sensitive,
                out.deep_view() =~~= kept_paths(entries@.take(i as int), tv, pv, cs),
        {
            let keep = if check_excluded(entries[i].path.as_str(), &config.exclude_patterns) {
                false
            } else {
                if config.case_sensitive {
                    str_eq(entries[i].name.as_str(), target)
                } else {
                    crate::text::eq_ignore_ascii_case(entries[i].name.as_str(), target)
                }
            };
            assert(keep == entry_kept(entries@[i as int], tv, pv, cs));
            let ghost pre = out.deep_view();
            if keep {
                out.push(entries[i].path.clone());
                proof {
                    assert(out.deep_view() =~~= pre.push(entries@[i as int].path@));
                }
            }
            proof {
                assert(entries@.take(i + 1).drop_last() =~= entries@.take(i as int));
                assert(entries@.take(i + 1).last() == entries@[i as int]);
                assert(out.deep_view() =~~= kept_paths(entries@.take(i + 1), tv, pv, cs));
            }
        }
        proof {
            assert(entries@.take(n as int) =~= entries@);
        }
        out
    }

    /// The matching folders under the default configuration.
    pub fn find_target_folders(entries: &Vec<FolderEntry>, target: &str) -> (r: Vec<String>)
        ensures
            exists|config: FuzzerConfig|
                (#[trigger] config.exclude_patterns.deep_view()) =~~= seq![
                    ".git"@,
                    "node_modules"@,
                    ".cache"@,
                    "target"@,
                    "tmp"@,
                    "var"@,
                ] && config.case_sensitive == false && r.deep_view() == kept_paths(
                    entries@,
                    target@,
                    config.exclude_patterns.deep_view(),
                    false,
                ),
    {
        let config = FuzzerConfig::default();
        let r = Fuzzer::find_target_folders_with_config(entries, target, &config);
        proof {
            assert(config.exclude_patterns.deep_view() =~~= seq![
                ".git"@,
                "node_modules"@,
                ".cache"@,
                "target"@,
                "tmp"@,
                "var"@,
            ]);
        }
        r
    }

    /// How many collected files a folder listing holds.
    pub fn count_files(entries: &Vec<FileEntry>) -> (r: usize)
        ensures
            r == entries@.len(),
    {
        entries.len()
    }

    /// The total byte size of a folder listing, saturating at the
    /// largest representable size.
    pub fn estimate_size(entries: &Vec<FileEntry>) -> (r: u64)
        ensures
            r == (if total_size(entries@) <= u64::MAX {
                total_size(entries@)
            } else {
                u64::MAX as int
            }),
    {
        let mut total: u64 = 0;
        let n = entries.len();
        for i in 0..n
            invariant
                n == entries@.len(),
                total == (if total_size(entries@.take(i as int)) <= u64::MAX {
                    total_size(entries@.take(i as int))
                } else {
                    u64::MAX as int
                }),
        {
            let s = entries[i].size;
            proof {
                assert(entries@.take(i + 1).drop_last() =~= entries@.take(i as int));
                assert(entries@.take(i + 1).last() == entries@[i as int]);
            }
            if total > u64::MAX - s {
                total = u64::MAX;
            } else {
                total = total + s;
            }
        }
        proof {
            assert(entries@.take(n as int) =~= entries@);
        }
        total
    }

    /// Summarize a folder from its collected listing.
    pub fn get_folder_info(path: &str, entries: &Vec<FileEntry>) -> (r: Result<
        FolderInfo,
        ArchiveError,
    >)
        ensures
            r is Ok,
            r->Ok_0.path@ == path@,
            r->Ok_0.file_count == entries@.len(),
            r->Ok_0.total_size == (if total_size(entries@) <= u64::MAX {
                total_size(entries@)
            } else {
                u64::MAX as int
            }),
    {
        let file_count = Fuzzer::count_files(entries);
        let size = Fuzzer::estimate_size(entries);
        Ok(FolderInfo { path: String::from_str(path), file_count, total_size: size })
    }
}

/// The exact total of the listed file sizes.
pub open spec fn total_size(s: Seq<FileEntry>) -> int
    decreases s.len(),
{
    if s.len() == 0 {
        0
    } else {
        total_size(s.drop_last()) + s.last().size
    }
}

/// A folder's path, file count and total byte size.
#[derive(Debug)]
pub struct FolderInfo {
    pub path: String,
    pub file_count: usize,
    pub total_size: u64,
}

} // verus!
