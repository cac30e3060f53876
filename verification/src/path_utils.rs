//! Cross-platform path handling: tilde expansion, separator
//! normalization, and the standard directories the tool works in.
//!
//! Paths are handled as plain strings; probing the disk and asking the
//! platform for directories stand behind trusted wrappers.

use vstd::prelude::*;

use crate::error::ArchiveError;
use crate::text::{contains_seq, starts_with_seq, str_contains, str_starts_with};

verus! {

/// Relies on `std::path::Path::exists`: whether anything answers at the
/// path.  Depends on the disk, so nothing is claimed.
#[verifier::external_body]
fn path_exists(p: &str) -> (r: bool) {
    std::path::Path::new(p).exists()
}

/// Relies on `std::path::Path::is_dir`: whether the path is a directory.
/// Depends on the disk, so nothing is claimed.
#[verifier::external_body]
fn path_is_dir(p: &str) -> (r: bool) {
    std::path::Path::new(p).is_dir()
}

/// Relies on `std::path::Path::is_file`: whether the path is a regular
/// file.  Depends on the disk, so nothing is claimed.
#[verifier::external_body]
fn path_is_file(p: &str) -> (r: bool) {
    std::path::Path::new(p).is_file()
}

/// Relies on `dirs::home_dir`: the user's home directory, when the
/// platform knows one.  Depends on the environment, so nothing is
/// claimed.
#[verifier::external_body]
fn home_dir() -> (r: Option<String>) {
    dirs::home_dir().map(|p| p.to_string_lossy().to_string())
}

/// Relies on `shellexpand::full`: expands `~` and `$VAR` references; a
/// string holding neither comes back unchanged.
#[verifier::external_body]
fn shell_expand_full(s: &str) -> (r: Result<String, ArchiveError>)
    ensures
        (!contains_seq(s@, seq!['$']) && !starts_with_seq(s@, seq!['~'])) ==> (r is Ok && r->Ok_0@
            == s@),
        r is Err ==> r->Err_0 == ArchiveError::PathInvalid,
{
    match shellexpand::full(s) {
        Ok(expanded) => Ok(expanded.to_string()),
        Err(_) => Err(ArchiveError::PathInvalid),
    }
}

/// Relies on `directories::ProjectDirs`: the platform's configuration
/// directory for this tool.  Depends on the environment, so nothing is
/// claimed.
#[verifier::external_body]
fn project_config_dir() -> (r: Option<String>) {
    directories::ProjectDirs::from("com", "blues24", "zencore").map(
        |d| d.config_dir().to_string_lossy().to_string(),
    )
}

/// Relies on `directories::ProjectDirs`: the platform's data directory
/// for this tool.  Depends on the environment, so nothing is claimed.
#[verifier::external_body]
fn project_data_dir() -> (r: Option<String>) {
    directories::ProjectDirs::from("com", "blues24", "zencore").map(
        |d| d.data_dir().to_string_lossy().to_string(),
    )
}

/// A path with one leading `~` replaced by the home directory: the tilde
/// and at most one following separator are dropped, and what remains is
/// joined under the home path.
pub open spec fn home_joined(home: Seq<char>, path: Seq<char>) -> Seq<char> {
    let rest = path.skip(1);
    let stripped = if rest.len() > 0 && (rest[0] == '/' || rest[0] == '\\') {
        rest.skip(1)
    } else {
        rest
    };
    home + seq!['/'] + stripped
}

/// Path utilities shared by the pipeline and its surrounding tooling.
pub struct PathUtils;

impl PathUtils {
    /// Join a `~`-prefixed path under the home directory.
    pub fn join_home(home: &str, path: &str) -> (r: String)
        requires
            path@.len() >= 1,
        ensures
            r@ == home_joined(home@, path@),
    {
        let v = crate::text::to_chars(path);
        let mut start: usize = 1;
        if start < v.len() && (v[start] == '/' || v[start] == '\\') {
            start = start + 1;
        }
        let mut out = crate::text::to_chars(home);
        out.push('/');
        let ghost head = home@ + seq!['/'];
        assert(out@ =~= head);
        let n = v.len();
        let mut i = start;
        while i < n
            invariant
                start <= i <= n,
                n == v@.len(),
                out@ == head + v@.subrange(start as int, i as int),
            decreases n - i,
        {
            out.push(v[i]);
            assert(out@ =~= head + v@.subrange(start as int, i + 1));
            i = i + 1;
        }
        proof {
            assert(v@.subrange(start as int, n as int) =~= v@.skip(start as int));
            if v@.len() > 1 && (v@[1] == '/' || v@[1] == '\\') {
                assert(v@.skip(1).skip(1) =~= v@.skip(2));
            } else {
                assert(v@.skip(1) =~= v@.subrange(1, n as int));
            }
            assert(out@ =~= home_joined(home@, path@));
        }
        crate::text::chars_to_string(&out)
    }

    /// Expand a leading `~` against the home directory, then let the
    /// shell expander substitute environment references.  A path that
    /// names neither comes back unchanged.
    pub fn expand_path(path: &str) -> (r: Result<String, ArchiveError>)
        ensures
            (!contains_seq(path@, seq!['$']) && !starts_with_seq(path@, seq!['~'])) ==> (r is Ok
                && r->Ok_0@ == path@),
            r is Err ==> r->Err_0 == ArchiveError::PathInvalid,
    {
        if str_starts_with(path, "~") {
            proof {
                reveal_strlit("~");
                assert("~"@ =~= seq!['~']);
                assert(starts_with_seq(path@, seq!['~']));
            }
            let home = match home_dir() {
                Some(h) => h,
                None => {
                    return Err(ArchiveError::PathInvalid);
                },
            };
            let joined = PathUtils::join_home(home.as_str(), path);
            shell_expand_full(joined.as_str())
        } else {
            proof {
                reveal_strlit("~");
                assert("~"@ =~= seq!['~']);
            }
            shell_expand_full(path)
        }
    }

    /// Normalize path separators to the forward slash.
    pub fn normalize_separators(path: &str) -> (r: String)
        ensures
            r@ == path@.map_values(|c: char| if c == '\\' {
                '/'
            } else {
                c
            }),
    {
        let v = crate::text::to_chars(path);
        let mut out: Vec<char> = Vec::new();
        let n = v.len();
        for i in 0..n
            invariant
                n == v@.len(),
                v@ == path@,
                out@ =~= path@.take(i as int).map_values(|c: char| if c == '\\' {
                    '/'
                } else {
                    c
                }),
        {
            if v[i] == '\\' {
                out.push('/');
            } else {
                out.push(v[i]);
            }
            assert(out@ =~= path@.take(i + 1).map_values(|c: char| if c == '\\' {
                '/'
            } else {
                c
            }));
        }
        proof {
            assert(out@ =~= path@.map_values(|c: char| if c == '\\' {
                '/'
            } else {
                c
            }));
        }
        crate::text::chars_to_string(&out)
    }

    /// The tool's configuration directory, when the platform knows one.
    pub fn config_dir() -> (r: Result<String, ArchiveError>)
        ensures
            r is Err ==> r->Err_0 == ArchiveError::PathInvalid,
    {
        match project_config_dir() {
            Some(d) => Ok(d),
            None => Err(ArchiveError::PathInvalid),
        }
    }

    /// The tool's data directory, when the platform knows one.
    pub fn data_dir() -> (r: Result<String, ArchiveError>)
        ensures
            r is Err ==> r->Err_0 == ArchiveError::PathInvalid,
    {
        match project_data_dir() {
            Some(d) => Ok(d),
            None => Err(ArchiveError::PathInvalid),
        }
    }

    /// Whether the path names an existing directory or regular file.
    /// The answer depends on the disk, so nothing further is claimed.
    pub fn is_valid_path(path: &str) -> (r: bool) {
        path_exists(path) && (path_is_dir(path) || path_is_file(path))
    }

    /// The usual places a music collection lives on this platform.
    pub fn default_music_folders() -> (r: Vec<String>)
        ensures
            r.deep_view() =~~= seq!["~/Music"@, "~/music"@, "~/Documents/Music"@, "/mnt/Music"@],
    {
        let mut r: Vec<String> = Vec::new();
        r.push(String::from_str("~/Music"));
        r.push(String::from_str("~/music"));
        r.push(String::from_str("~/Documents/Music"));
        r.push(String::from_str("/mnt/Music"));
        r
    }

    /// The usual places backups are kept on this platform.
    pub fn default_backup_folders() -> (r: Vec<String>)
        ensures
            r.deep_view() =~~= seq![
                "~/Backups"@,
                "~/backups"@,
                "~/Documents/Backups"@,
                "/mnt/backup"@,
            ],
    {
        let mut r: Vec<String> = Vec::new();
        r.push(String::from_str("~/Backups"));
        r.push(String::from_str("~/backups"));
        r.push(String::from_str("~/Documents/Backups"));
        r.push(String::from_str("/mnt/backup"));
        r
    }
}

} // verus!
