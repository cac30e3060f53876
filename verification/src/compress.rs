//! Container encoding: streams collected files into one of three
//! compressed container formats, in collector order, and reports the
//! relative path of every entry written.
//!
//! The tar stream and the two compressors are deterministic, so their
//! results are modelled as named functions of the entries and the level;
//! the indexed zip container draws a random salt for its optional
//! per-entry encryption, so nothing is claimed of its bytes beyond the
//! entry list.

use vstd::prelude::*;

use crate::error::ArchiveError;
use crate::text::{split_sep, starts_with_seq};
use crate::FileEntry;

use std::io::Cursor;
use std::io::Write;

verus! {

/// A collected file handed to the encoder: its absolute path and content.
pub struct FileData {
    pub path: String,
    pub data: Vec<u8>,
}

/// The three container kinds.
#[derive(Clone, Copy, PartialEq, Eq, Structural, Debug)]
pub enum ContainerKind {
    /// Streaming tar compressed with gzip.
    TarGz,
    /// Streaming tar compressed with zstd.
    TarZst,
    /// Indexed zip with Deflate entries.
    Zip,
}

/// The container kind an algorithm name selects, if any.
pub open spec fn kind_of_name(s: Seq<char>) -> Option<ContainerKind> {
    if s == "tar.gz"@ || s == "gz"@ {
        Some(ContainerKind::TarGz)
    } else if s == "tar.zst"@ || s == "zst"@ {
        Some(ContainerKind::TarZst)
    } else if s == "zip"@ {
        Some(ContainerKind::Zip)
    } else {
        None
    }
}

/// Parse an algorithm name into a container kind.
pub fn parse_kind(s: &str) -> (r: Option<ContainerKind>)
    ensures
        r == kind_of_name(s@),
{
    if crate::text::str_eq(s, "tar.gz") || crate::text::str_eq(s, "gz") {
        Some(ContainerKind::TarGz)
    } else if crate::text::str_eq(s, "tar.zst") || crate::text::str_eq(s, "zst") {
        Some(ContainerKind::TarZst)
    } else if crate::text::str_eq(s, "zip") {
        Some(ContainerKind::Zip)
    } else {
        None
    }
}

/// The default compression level of a container kind.
pub open spec fn default_level(kind: ContainerKind) -> i32 {
    match kind {
        ContainerKind::TarGz => 6,
        ContainerKind::TarZst => 3,
        ContainerKind::Zip => 6,
    }
}

/// Whether a level lies in the valid range of a container kind:
/// `[0, 9]` for gzip and zip, `[1, 22]` for zstd.
pub open spec fn level_valid(kind: ContainerKind, level: i32) -> bool {
    match kind {
        ContainerKind::TarGz => 0 <= level <= 9,
        ContainerKind::TarZst => 1 <= level <= 22,
        ContainerKind::Zip => 0 <= level <= 9,
    }
}

/// The level the encoder uses: the configured one when it is valid for
/// the kind, the kind's default otherwise (out-of-range levels are
/// rejected, not clamped).
pub open spec fn effective_level(kind: ContainerKind, level: Option<i32>) -> i32 {
    match level {
        None => default_level(kind),
        Some(l) => if level_valid(kind, l) {
            l
        } else {
            default_level(kind)
        },
    }
}

/// Compute the effective compression level.
pub fn resolve_level(kind: ContainerKind, level: Option<i32>) -> (r: i32)
    ensures
        r == effective_level(kind, level),
{
    let d: i32 = match kind {
        ContainerKind::TarGz => 6,
        ContainerKind::TarZst => 3,
        ContainerKind::Zip => 6,
    };
    match level {
        None => d,
        Some(l) => {
            let valid = match kind {
                ContainerKind::TarGz => 0 <= l && l <= 9,
                ContainerKind::TarZst => 1 <= l && l <= 22,
                ContainerKind::Zip => 0 <= l && l <= 9,
            };
            if valid {
                l
            } else {
                d
            }
        },
    }
}

/// Decide whether a level lies in the valid range of a container kind.
pub fn level_is_valid(kind: ContainerKind, level: i32) -> (r: bool)
    ensures
        r == level_valid(kind, level),
{
    match kind {
        ContainerKind::TarGz => 0 <= level && level <= 9,
        ContainerKind::TarZst => 1 <= level && level <= 22,
        ContainerKind::Zip => 0 <= level && level <= 9,
    }
}

/// A path relative to the source root: the root prefix stripped, and one
/// leading separator after it dropped.
pub open spec fn relativize_spec(path: Seq<char>, root: Seq<char>) -> Seq<char> {
    let rest = path.skip(root.len() as int);
    if rest.len() > 0 && rest[0] == '/' {
        rest.skip(1)
    } else {
        rest
    }
}

/// Strip the source-root prefix from a path; `None` when the path does
/// not lie under the root.
pub fn relativize(path: &str, root: &str) -> (r: Option<String>)
    ensures
        r is Some <==> starts_with_seq(path@, root@),
        r is Some ==> r->0@ == relativize_spec(path@, root@),
{
    let v = crate::text::to_chars(path);
    let p = crate::text::to_chars(root);
    if p.len() > v.len() {
        return None;
    }
    if !crate::text::check_match(&v, 0, &p) {
        assert(!starts_with_seq(path@, root@));
        return None;
    }
    assert(starts_with_seq(path@, root@));
    let mut start = p.len();
    if start < v.len() && v[start] == '/' {
        start = start + 1;
    }
    let mut rest: Vec<char> = Vec::new();
    let n = v.len();
    let mut i = start;
    while i < n
        invariant
            start <= i <= n,
            n == v@.len(),
            rest@ == v@.subrange(start as int, i as int),
        decreases n - i,
    {
        rest.push(v[i]);
        assert(rest@ =~= v@.subrange(start as int, i + 1));
        i = i + 1;
    }
    proof {
        assert(rest@ =~= v@.skip(start as int));
        if p@.len() < v@.len() && v@[p@.len() as int] == '/' {
            assert(v@.skip(p@.len() as int).skip(1) =~= v@.skip(p@.len() as int + 1));
        }
    }
    Some(crate::text::chars_to_string(&rest))
}

/// The entry list (relative name, content) the encoder writes for the
/// given files under the given source root.
pub open spec fn entry_views(files: Seq<FileData>, root: Seq<char>) -> Seq<(Seq<char>, Seq<u8>)> {
    files.map_values(|f: FileData| (relativize_spec(f.path@, root), f.data@))
}

/// The relative names of those entries, in write order.
pub open spec fn rel_names(files: Seq<FileData>, root: Seq<char>) -> Seq<Seq<char>> {
    files.map_values(|f: FileData| relativize_spec(f.path@, root))
}

/// An entry name the tar writer accepts: non-empty, relative, free of
/// NUL bytes and of parent-directory components.
pub open spec fn tar_name_ok(n: Seq<char>) -> bool {
    &&& n.len() > 0
    &&& n[0] != '/'
    &&& forall|k: int| 0 <= k < n.len() ==> (#[trigger] n[k]) as u32 != 0
    &&& forall|k: int| 0 <= k < split_sep(n, '/').len() ==> (#[trigger] split_sep(n, '/')[k])
        != seq!['.', '.']
}

/// The byte stream of an uncompressed tar archive holding the given
/// entries in order, with fixed (zeroed) metadata.
pub uninterp spec fn tar_bytes(entries: Seq<(Seq<char>, Seq<u8>)>) -> Seq<u8>;

/// What a tar stream has been fed so far.
pub uninterp spec fn tar_contents(b: TarStream) -> Seq<(Seq<char>, Seq<u8>)>;

/// The gzip compression of a byte stream at a given level.
pub uninterp spec fn gzip_bytes(data: Seq<u8>, level: i32) -> Seq<u8>;

/// The zstd compression of a byte stream at a given level.
pub uninterp spec fn zstd_bytes(data: Seq<u8>, level: i32) -> Seq<u8>;

/// An in-progress tar stream writing to memory.  The outside builder it
/// holds is opaque to the verifier; what it has been fed is tracked by
/// [`tar_contents`].
#[verifier::external_body]
pub struct TarStream {
    inner: tar::Builder<Vec<u8>>,
}

/// Relies on `tar::Builder::new`: a builder that has written nothing yet.
#[verifier::external_body]
fn tar_new() -> (r: TarStream)
    ensures
        tar_contents(r) == Seq::<(Seq<char>, Seq<u8>)>::empty(),
{
    TarStream { inner: tar::Builder::new(Vec::new()) }
}

/// Relies on `tar::Builder::append_data`: appends one entry under the
/// given name, with a zeroed header carrying only the size and a fixed
/// file mode, so the stream is a function of the entries alone.  The
/// writer accepts every non-empty relative name without NUL bytes or
/// parent-directory components (over-long names go through the GNU
/// long-name extension), and writing to a byte vector cannot fail, so
/// appending such a name succeeds.
#[verifier::external_body]
fn tar_append(b: &mut TarStream, name: &str, data: &[u8]) -> (r: Result<
    (),
    ArchiveError,
>)
    ensures
        r is Ok ==> tar_contents(*final(b)) == tar_contents(*old(b)).push((name@, data@)),
        tar_name_ok(name@) ==> r is Ok,
{
    let mut header = tar::Header::new_gnu();
    header.set_size(data.len() as u64);
    header.set_mode(0o644);
    header.set_cksum();
    match b.inner.append_data(&mut header, name, data) {
        Ok(()) => Ok(()),
        Err(_) => Err(ArchiveError::IOFailure),
    }
}

/// Relies on `tar::Builder::into_inner`: finishes the archive and hands
/// back the written stream; writing to a byte vector cannot fail.
#[verifier::external_body]
fn tar_finish(b: TarStream) -> (r: Vec<u8>)
    ensures
        r@ == tar_bytes(tar_contents(b)),
{
    b.inner.into_inner().unwrap()
}

/// Relies on `flate2::write::GzEncoder`: gzip-compresses a byte stream
/// at the given level with a fixed (zero) modification time, so the
/// result is a function of the data and the level; writing to a byte
/// vector cannot fail.
#[verifier::external_body]
fn gzip_encode(data: &[u8], level: i32) -> (r: Vec<u8>)
    requires
        0 <= level <= 9,
    ensures
        r@ == gzip_bytes(data@, level),
{
    let mut enc = flate2::write::GzEncoder::new(
        Vec::new(),
        flate2::Compression::new(level as u32),
    );
    enc.write_all(data).unwrap();
    enc.finish().unwrap()
}

/// Relies on `zstd::stream::encode_all`: zstd-compresses a byte stream
/// at the given level; the result is a function of the data and the
/// level, and encoding an in-memory slice cannot fail.
#[verifier::external_body]
fn zstd_encode(data: &[u8], level: i32) -> (r: Vec<u8>)
    requires
        1 <= level <= 22,
    ensures
        r@ == zstd_bytes(data@, level),
{
    zstd::stream::encode_all(data, level).unwrap()
}

/// An in-progress zip container writing to memory.  The outside writer
/// it holds is opaque to the verifier; with per-entry encryption the
/// container bytes depend on fresh random salts, so nothing is claimed
/// of them.
#[verifier::external_body]
pub struct ZipStream {
    inner: zip::ZipWriter<Cursor<Vec<u8>>>,
}

/// Relies on `zip::ZipWriter::new` over an in-memory cursor.
#[verifier::external_body]
fn zip_new() -> (r: ZipStream) {
    ZipStream { inner: zip::ZipWriter::new(Cursor::new(Vec::new())) }
}

/// Relies on `zip::ZipWriter::start_file` and `std::io::Write::write_all`:
/// adds one Deflate entry under the given name at the given level; with a
/// password, the entry is AES-256-encrypted with a fresh random salt.
/// The deflate backend accepts levels 1 through 9 only, so level 0 —
/// valid for the zip kind by this library's rule — makes `start_file`
/// error and the job fails with `IOFailure`.
#[verifier::external_body]
fn zip_add(
    w: &mut ZipStream,
    name: &str,
    data: &[u8],
    level: i32,
    password: Option<&String>,
) -> (r: Result<(), ArchiveError>)
    requires
        0 <= level <= 9,
{
    let mut options: zip::write::FileOptions<'_, zip::write::ExtendedFileOptions> =
        zip::write::FileOptions::default().compression_method(
            zip::CompressionMethod::Deflated,
        ).compression_level(Some(level as i64));
    if let Some(p) = password {
        options = options.with_aes_encryption(zip::AesMode::Aes256, p.as_str());
    }
    let ok = w.inner.start_file(name, options).is_ok() && w.inner.write_all(data).is_ok();
    if ok {
        Ok(())
    } else {
        Err(ArchiveError::IOFailure)
    }
}

/// Relies on `zip::ZipWriter::finish`: writes the central directory and
/// hands back the container bytes.
#[verifier::external_body]
fn zip_finish(w: ZipStream) -> (r: Result<Vec<u8>, ArchiveError>) {
    match w.inner.finish() {
        Ok(cursor) => Ok(cursor.into_inner()),
        Err(_) => Err(ArchiveError::IOFailure),
    }
}


/// Relies on `walkdir::WalkDir`: every regular file beneath the root as a
/// (path, byte length) pair, in discovery order; unreadable entries are
/// skipped.  What comes back depends on the disk, so nothing is claimed
/// of it.
#[verifier::external_body]
fn walk_regular_files(root: &str) -> (r: Vec<FileEntry>) {
    let mut out = Vec::new();
    for entry in walkdir::WalkDir::new(root).into_iter().filter_map(|e| e.ok()) {
        if entry.file_type().is_file() {
            if let Ok(meta) = entry.metadata() {
                let path = entry.path().to_string_lossy().to_string();
                out.push(FileEntry { path, size: meta.len() });
            }
        }
    }
    out
}

/// Relies on `num_cpus::get`: the number of logical CPUs, at least one.
#[verifier::external_body]
fn cpu_count() -> (r: usize)
    ensures
        r >= 1,
{
    num_cpus::get()
}

/// Stable descending insertion of `e` into `s`: `e` ends up after every
/// element whose size is at least as large.
pub open spec fn insert_desc(s: Seq<FileEntry>, e: FileEntry) -> Seq<FileEntry>
    decreases s.len(),
{
    if s.len() == 0 {
        seq![e]
    } else if s.last().size < e.size {
        insert_desc(s.drop_last(), e).push(s.last())
    } else {
        s.push(e)
    }
}

/// The collector's file list ordered by descending size; files of equal
/// size keep their discovery order.
pub open spec fn sort_by_size_desc(s: Seq<FileEntry>) -> Seq<FileEntry>
    decreases s.len(),
{
    if s.len() == 0 {
        s
    } else {
        insert_desc(sort_by_size_desc(s.drop_last()), s.last())
    }
}

proof fn lemma_insert_desc_at(s: Seq<FileEntry>, e: FileEntry, j: int)
    requires
        0 <= j <= s.len(),
        forall|k: int| j <= k < s.len() ==> s[k].size < e.size,
        j > 0 ==> s[j - 1].size >= e.size,
    ensures
        insert_desc(s, e) == s.take(j) + seq![e] + s.skip(j),
    decreases s.len(),
{
    if j == s.len() {
        if s.len() == 0 {
            assert(insert_desc(s, e) =~= s.take(j) + seq![e] + s.skip(j));
        } else {
            assert(s.last().size >= e.size);
            assert(insert_desc(s, e) == s.push(e));
            assert(s.push(e) =~= s.take(j) + seq![e] + s.skip(j));
        }
    } else {
        assert(s[s.len() - 1].size < e.size);
        let d = s.drop_last();
        lemma_insert_desc_at(d, e, j);
        assert(insert_desc(s, e) == insert_desc(d, e).push(s.last()));
        assert((d.take(j) + seq![e] + d.skip(j)).push(s.last()) =~= s.take(j) + seq![e] + s.skip(
            j,
        ));
    }
}

/// Sizes are non-increasing along the list.
pub open spec fn sizes_descending(s: Seq<FileEntry>) -> bool {
    forall|i: int, j: int|
        0 <= i <= j < s.len() ==> (#[trigger] s[i]).size >= (#[trigger] s[j]).size
}

proof fn lemma_insert_desc_bound(s: Seq<FileEntry>, e: FileEntry, b: u64)
    requires
        forall|k: int| 0 <= k < s.len() ==> (#[trigger] s[k]).size >= b,
        e.size >= b,
    ensures
        insert_desc(s, e).len() == s.len() + 1,
        forall|k: int| 0 <= k < insert_desc(s, e).len() ==> (#[trigger] insert_desc(s, e)[k]).size
            >= b,
    decreases s.len(),
{
    if s.len() == 0 {
    } else if s.last().size < e.size {
        lemma_insert_desc_bound(s.drop_last(), e, b);
    } else {
    }
}

proof fn lemma_insert_desc_sorted(s: Seq<FileEntry>, e: FileEntry)
    requires
        sizes_descending(s),
    ensures
        sizes_descending(insert_desc(s, e)),
        insert_desc(s, e).len() == s.len() + 1,
    decreases s.len(),
{
    if s.len() == 0 {
    } else if s.last().size < e.size {
        let d = s.drop_last();
        assert(sizes_descending(d));
        lemma_insert_desc_sorted(d, e);
        assert(forall|k: int| 0 <= k < d.len() ==> (#[trigger] d[k]).size >= s.last().size);
        lemma_insert_desc_bound(d, e, s.last().size);
        let r = insert_desc(d, e).push(s.last());
        assert forall|i: int, j: int| 0 <= i <= j < r.len() implies (#[trigger] r[i]).size >= (
        #[trigger] r[j]).size by {
            if j < r.len() - 1 {
                assert(r[i] == insert_desc(d, e)[i] && r[j] == insert_desc(d, e)[j]);
            } else {
                assert(r[j] == s.last());
                if i < r.len() - 1 {
                    assert(r[i] == insert_desc(d, e)[i]);
                }
            }
        }
    } else {
        let r = s.push(e);
        assert forall|i: int, j: int| 0 <= i <= j < r.len() implies (#[trigger] r[i]).size >= (
        #[trigger] r[j]).size by {
            if j < r.len() - 1 {
                assert(r[i] == s[i] && r[j] == s[j]);
            } else {
                assert(r[j] == e);
                if i < r.len() - 1 {
                    assert(r[i] == s[i]);
                    assert(s[i].size >= s.last().size);
                }
            }
        }
    }
}

/// The ordered list really is ordered: sizes never increase along it.
pub proof fn lemma_sort_by_size_sorted(s: Seq<FileEntry>)
    ensures
        sizes_descending(sort_by_size_desc(s)),
        sort_by_size_desc(s).len() == s.len(),
    decreases s.len(),
{
    if s.len() > 0 {
        lemma_sort_by_size_sorted(s.drop_last());
        lemma_insert_desc_sorted(sort_by_size_desc(s.drop_last()), s.last());
    }
}

/// Order a file list by descending size, keeping discovery order among
/// files of equal size.
pub fn sort_files_by_size(files: &Vec<FileEntry>) -> (r: Vec<FileEntry>)
    ensures
        r@ == sort_by_size_desc(files@),
{
    let mut out: Vec<FileEntry> = Vec::new();
    let n = files.len();
    for k in 0..n
        invariant
            n == files@.len(),
            out@ == sort_by_size_desc(files@.take(k as int)),
    {
        let e = FileEntry { path: files[k].path.clone(), size: files[k].size };
        assert(e == files@[k as int]);
        let mut j = out.len();
        while j > 0 && out[j - 1].size < e.size
            invariant
                j <= out@.len(),
                forall|m: int| j <= m < out@.len() ==> out@[m].size < e.size,
            decreases j,
        {
            j = j - 1;
        }
        proof {
            lemma_insert_desc_at(out@, e, j as int);
        }
        let ghost pre = out@;
        out.insert(j, e);
        proof {
            assert(out@ =~= pre.take(j as int) + seq![e] + pre.skip(j as int));
            assert(files@.take(k + 1).drop_last() =~= files@.take(k as int));
            assert(files@.take(k + 1).last() == files@[k as int]);
            assert(out@ == sort_by_size_desc(files@.take(k + 1)));
        }
    }
    proof {
        assert(files@.take(n as int) =~= files@);
    }
    out
}

/// The archive-production job: source and destination roots, output name,
/// container kind, and tuning options.  Immutable once handed to the
/// pipeline.
pub struct Archiver {
    pub source: String,
    pub destination: String,
    pub archive_name: String,
    pub algorithm: String,
    pub num_threads: usize,
    pub compression_level: Option<i32>,
    pub password: Option<String>,
    pub sort_by_size: bool,
}

impl Archiver {
    /// A job with default tuning: automatic thread count, the kind's
    /// default compression level, no password, size sorting on.
    pub fn new(source: String, destination: String, archive_name: String, algorithm: String) -> (r:
        Self)
        ensures
            r.source@ == source@,
            r.destination@ == destination@,
            r.archive_name@ == archive_name@,
            r.algorithm@ == algorithm@,
            r.num_threads == 0,
            r.compression_level is None,
            r.password is None,
            r.sort_by_size == true,
    {
        Archiver {
            source,
            destination,
            archive_name,
            algorithm,
            num_threads: 0,
            compression_level: None,
            password: None,
            sort_by_size: true,
        }
    }

    /// Set the worker count used for collection (0 = detect).
    pub fn with_threads(self, threads: usize) -> (r: Self)
        ensures
            r == (Archiver { num_threads: threads, ..self }),
    {
        Archiver { num_threads: threads, ..self }
    }

    /// Set the compression level.
    pub fn with_compression_level(self, level: i32) -> (r: Self)
        ensures
            r == (Archiver { compression_level: Some(level), ..self }),
    {
        Archiver { compression_level: Some(level), ..self }
    }

    /// Set the password for the zip container's per-entry encryption.
    pub fn with_password(self, password: String) -> (r: Self)
        ensures
            r == (Archiver { password: Some(password), ..self }),
    {
        Archiver { password: Some(password), ..self }
    }

    /// Enable or disable ordering by descending file size.
    pub fn with_size_sorting(self, enabled: bool) -> (r: Self)
        ensures
            r == (Archiver { sort_by_size: enabled, ..self }),
    {
        Archiver { sort_by_size: enabled, ..self }
    }

    /// The worker count this job runs with: the configured one, or the
    /// detected CPU count when unset.
    pub fn effective_threads(&self) -> (r: usize)
        ensures
            self.num_threads > 0 ==> r == self.num_threads,
            self.num_threads == 0 ==> r >= 1,
    {
        if self.num_threads == 0 {
            cpu_count()
        } else {
            self.num_threads
        }
    }

    /// Enumerate the regular files under the source root.  What is found
    /// depends on the disk; but when the job asks for size ordering, the
    /// returned list is the stable descending-size ordering of the walk,
    /// so its sizes never increase along the list.
    pub fn collect_files(&self) -> (r: Vec<FileEntry>)
        ensures
            self.sort_by_size ==> exists|w: Seq<FileEntry>| r@ == sort_by_size_desc(w),
            self.sort_by_size ==> sizes_descending(r@),
    {
        let files = walk_regular_files(self.source.as_str());
        if self.sort_by_size {
            let ordered = sort_files_by_size(&files);
            proof {
                lemma_sort_by_size_sorted(files@);
                assert(ordered@ == sort_by_size_desc(files@));
            }
            ordered
        } else {
            files
        }
    }

    /// Encode the collected files into the configured container.
    ///
    /// Returns the container bytes and the relative path of every entry,
    /// in write order: exactly the input paths, in input order, each
    /// relativized to the source root, whatever the container kind.
    pub fn compress(&self, files: &Vec<FileData>) -> (r: Result<
        (Vec<u8>, Vec<String>),
        ArchiveError,
    >)
        ensures
            (r is Err && r->Err_0 == ArchiveError::UnsupportedContainerKind) <==> kind_of_name(
                self.algorithm@,
            ) is None,
            kind_of_name(self.algorithm@) is Some ==> ((r is Err && r->Err_0
                == ArchiveError::PathInvalid) <==> exists|i: int|
                0 <= i < files@.len() && !starts_with_seq(
                    #[trigger] files@[i].path@,
                    self.source@,
                )),
            r is Ok ==> r->Ok_0.1.deep_view() == rel_names(files@, self.source@),
            r is Ok && kind_of_name(self.algorithm@) == Some(ContainerKind::TarGz) ==> r->Ok_0.0@
                == gzip_bytes(
                tar_bytes(entry_views(files@, self.source@)),
                effective_level(ContainerKind::TarGz, self.compression_level),
            ),
            r is Ok && kind_of_name(self.algorithm@) == Some(ContainerKind::TarZst) ==> r->Ok_0.0@
                == zstd_bytes(
                tar_bytes(entry_views(files@, self.source@)),
                effective_level(ContainerKind::TarZst, self.compression_level),
            ),
            r is Err ==> (r->Err_0 == ArchiveError::UnsupportedContainerKind || r->Err_0
                == ArchiveError::PathInvalid || r->Err_0 == ArchiveError::IOFailure),
            ((kind_of_name(self.algorithm@) == Some(ContainerKind::TarGz) || kind_of_name(
                self.algorithm@,
            ) == Some(ContainerKind::TarZst)) && (forall|i: int|
                0 <= i < files@.len() ==> starts_with_seq(
                    #[trigger] files@[i].path@,
                    self.source@,
                )) && (forall|i: int|
                0 <= i < files@.len() ==> tar_name_ok(
                    relativize_spec(#[trigger] files@[i].path@, self.source@),
                ))) ==> r is Ok,
    {
        let kind = match parse_kind(self.algorithm.as_str()) {
            Some(k) => k,
            None => {
                return Err(ArchiveError::UnsupportedContainerKind);
            },
        };
        let level = resolve_level(kind, self.compression_level);
        let n = files.len();
        let mut names: Vec<String> = Vec::new();
        for i in 0..n
            invariant
                n == files@.len(),
                kind_of_name(self.algorithm@) is Some,
                names.deep_view() =~~= rel_names(files@.take(i as int), self.source@),
                forall|k: int| 0 <= k < i ==> starts_with_seq(
                    #[trigger] files@[k].path@,
                    self.source@,
                ),
        {
            let ghost pre = names.deep_view();
            match relativize(files[i].path.as_str(), self.source.as_str()) {
                Some(nm) => {
                    let ghost nv = nm@;
                    names.push(nm);
                    proof {
                        let post = rel_names(files@.take(i + 1), self.source@);
                        assert(names.deep_view() =~~= pre.push(nv));
                        assert(post.len() == i + 1);
                        assert forall|k: int| 0 <= k < i + 1 implies post[k] == pre.push(nv)[k] by {
                            assert(post[k] == relativize_spec(
                                files@.take(i + 1)[k].path@,
                                self.source@,
                            ));
                            if k < i {
                                assert(rel_names(files@.take(i as int), self.source@)[k]
                                    == relativize_spec(
                                    files@.take(i as int)[k].path@,
                                    self.source@,
                                ));
                            }
                        }
                        assert(names.deep_view() =~~= post);
                    }
                },
                None => {
                    return Err(ArchiveError::PathInvalid);
                },
            }
        }
        proof {
            assert(files@.take(n as int) =~= files@);
            assert(names.deep_view() =~~= rel_names(files@, self.source@));
            assert(names.deep_view().len() == files@.len());
        }
        match kind {
            ContainerKind::TarGz | ContainerKind::TarZst => {
                let mut tb = tar_new();
                for i in 0..n
                    invariant
                        n == files@.len(),
                        kind_of_name(self.algorithm@) is Some,
                        forall|k: int| 0 <= k < n ==> starts_with_seq(
                            #[trigger] files@[k].path@,
                            self.source@,
                        ),
                        names.deep_view() == rel_names(files@, self.source@),
                        names@.len() == n,
                        tar_contents(tb) =~~= entry_views(files@.take(i as int), self.source@),
                {
                    assert(names.deep_view()[i as int] == relativize_spec(
                        files@[i as int].path@,
                        self.source@,
                    ));
                    if tar_append(&mut tb, names[i].as_str(), files[i].data.as_slice()).is_err() {
                        proof {
                            assert(!tar_name_ok(
                                relativize_spec(files@[i as int].path@, self.source@),
                            ));
                        }
                        return Err(ArchiveError::IOFailure);
                    }
                    assert(tar_contents(tb) =~~= entry_views(files@.take(i + 1), self.source@));
                }
                proof {
                    assert(files@.take(n as int) =~= files@);
                    assert(tar_contents(tb) =~~= entry_views(files@, self.source@));
                }
                let stream = tar_finish(tb);
                let bytes = match kind {
                    ContainerKind::TarGz => gzip_encode(stream.as_slice(), level),
                    _ => zstd_encode(stream.as_slice(), level),
                };
                Ok((bytes, names))
            },
            ContainerKind::Zip => {
                let mut zw = zip_new();
                for i in 0..n
                    invariant
                        n == files@.len(),
                        kind_of_name(self.algorithm@) == Some(ContainerKind::Zip),
                        forall|k: int| 0 <= k < n ==> starts_with_seq(
                            #[trigger] files@[k].path@,
                            self.source@,
                        ),
                        names.deep_view() == rel_names(files@, self.source@),
                        names@.len() == n,
                        0 <= level <= 9,
                {
                    if zip_add(
                        &mut zw,
                        names[i].as_str(),
                        files[i].data.as_slice(),
                        level,
                        self.password.as_ref(),
                    ).is_err() {
                        return Err(ArchiveError::IOFailure);
                    }
                }
                match zip_finish(zw) {
                    Ok(bytes) => Ok((bytes, names)),
                    Err(_) => Err(ArchiveError::IOFailure),
                }
            },
        }
    }
}

} // verus!
