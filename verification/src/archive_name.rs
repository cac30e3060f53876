//! Archive naming: template expansion from clock values, the extension
//! chosen by the container kind, and collision-avoidance suffixing
//! against the names already present at the destination.

use vstd::prelude::*;

use crate::error::ArchiveError;
use std::fmt::Write;
use crate::text::{dec_str, replace_all, replace_seq, str_eq};

verus! {

/// Clock values a naming template may refer to, all pre-rendered as
/// text so that template expansion itself is a pure function.
pub struct TimeParts {
    pub date: String,
    pub year: String,
    pub month: String,
    pub day: String,
    pub hour: String,
    pub minute: String,
    pub timestamp: String,
}

/// Relies on `chrono::Local::now` and its `format`: the current local
/// time rendered with the given format string, or nothing when the
/// format string is invalid (rendering is done through `fmt::Write`,
/// which surfaces the formatter's error instead of panicking).  The
/// rendered text depends on the clock, so nothing is claimed of it.
#[verifier::external_body]
fn now_formatted(format: &str) -> (r: Option<String>) {
    let mut out = String::new();
    match write!(out, "{}", chrono::Local::now().format(format)) {
        Ok(()) => Some(out),
        Err(_) => None,
    }
}

/// Relies on `chrono::Local::now` and `timestamp`: seconds since the
/// Unix epoch.  Depends on the clock, so nothing is claimed of it.
#[verifier::external_body]
fn now_unix_seconds() -> (r: i64) {
    chrono::Local::now().timestamp()
}

/// Render the current local time with `format`; an invalid format
/// string falls back to the default date format, never a panic.
fn render_now(format: &str) -> (r: String) {
    match now_formatted(format) {
        Some(rendered) => rendered,
        None => match now_formatted("%Y%m%d_%H%M%S") {
            Some(rendered) => rendered,
            None => String::new(),
        },
    }
}

impl TimeParts {
    /// Render the current local time: the configured date format plus
    /// the individual calendar fields a template may name.  An invalid
    /// date format falls back to the default one.
    pub fn now(date_format: &str) -> (r: TimeParts) {
        TimeParts {
            date: render_now(date_format),
            year: render_now("%Y"),
            month: render_now("%m"),
            day: render_now("%d"),
            hour: render_now("%H"),
            minute: render_now("%M"),
            timestamp: crate::text::signed_to_string(now_unix_seconds()),
        }
    }
}

/// The trailing path separators of `p` removed.
pub open spec fn trim_slashes(p: Seq<char>) -> Seq<char>
    decreases p.len(),
{
    if p.len() > 0 && p.last() == '/' {
        trim_slashes(p.drop_last())
    } else {
        p
    }
}

/// The part of `p` after its last path separator.
pub open spec fn after_last_slash(p: Seq<char>) -> Seq<char>
    decreases p.len(),
{
    if p.len() == 0 {
        p
    } else if p.last() == '/' {
        Seq::empty()
    } else {
        after_last_slash(p.drop_last()).push(p.last())
    }
}

/// The file name of a source path, as a template's `{source}` renders
/// it: the last path component, or `archive` when the path has none.
pub open spec fn base_name_of(p: Seq<char>) -> Seq<char> {
    let b = after_last_slash(trim_slashes(p));
    if b.len() == 0 || b == seq!['.'] || b == seq!['.', '.'] {
        "archive"@
    } else {
        b
    }
}

proof fn lemma_trim_slashes_at(p: Seq<char>, e: int)
    requires
        0 <= e <= p.len(),
        forall|k: int| e <= k < p.len() ==> p[k] == '/',
        e > 0 ==> p[e - 1] != '/',
    ensures
        trim_slashes(p) == p.take(e),
    decreases p.len(),
{
    if e == p.len() {
        if p.len() > 0 && p.last() == '/' {
            assert(false);
        }
        assert(p.take(e) =~= p);
    } else {
        assert(p.last() == '/');
        lemma_trim_slashes_at(p.drop_last(), e);
        assert(p.drop_last().take(e) =~= p.take(e));
    }
}

proof fn lemma_after_last_slash_at(p: Seq<char>, j: int)
    requires
        0 <= j <= p.len(),
        forall|k: int| j <= k < p.len() ==> p[k] != '/',
        j > 0 ==> p[j - 1] == '/',
    ensures
        after_last_slash(p) == p.skip(j),
    decreases p.len(),
{
    if p.len() == 0 {
        assert(p.skip(j) =~= p);
    } else if p.last() == '/' {
        assert(j == p.len());
        assert(p.skip(j) =~= Seq::<char>::empty());
    } else {
        assert(j < p.len());
        lemma_after_last_slash_at(p.drop_last(), j);
        assert(p.drop_last().skip(j).push(p.last()) =~= p.skip(j));
    }
}

/// The last path component of a path, with `archive` standing in for
/// paths that have none.
pub fn base_name(path: &str) -> (r: String)
    ensures
        r@ == base_name_of(path@),
{
    let v = crate::text::to_chars(path);
    let n = v.len();
    let mut e = n;
    while e > 0 && v[e - 1] == '/'
        invariant
            e <= n,
            n == v@.len(),
            forall|k: int| e <= k < n ==> v@[k] == '/',
        decreases e,
    {
        e = e - 1;
    }
    proof {
        lemma_trim_slashes_at(v@, e as int);
    }
    let mut j = e;
    while j > 0 && v[j - 1] != '/'
        invariant
            j <= e <= n,
            n == v@.len(),
            forall|k: int| j <= k < e ==> v@[k] != '/',
        decreases j,
    {
        j = j - 1;
    }
    proof {
        assert(v@.take(e as int).len() == e);
        assert(forall|k: int| j <= k < e ==> v@.take(e as int)[k] != '/');
        lemma_after_last_slash_at(v@.take(e as int), j as int);
    }
    let mut b: Vec<char> = Vec::new();
    let mut i = j;
    while i < e
        invariant
            j <= i <= e <= n,
            n == v@.len(),
            b@ == v@.subrange(j as int, i as int),
        decreases e - i,
    {
        b.push(v[i]);
        assert(b@ =~= v@.subrange(j as int, i + 1));
        i = i + 1;
    }
    proof {
        assert(b@ =~= v@.take(e as int).skip(j as int));
    }
    let ghost bs = after_last_slash(trim_slashes(path@));
    if b.len() == 0 {
        return crate::text::chars_to_string(&crate::text::to_chars("archive"));
    }
    if b.len() == 1 && b[0] == '.' {
        assert(bs =~= seq!['.']);
        return crate::text::chars_to_string(&crate::text::to_chars("archive"));
    }
    if b.len() == 2 && b[0] == '.' && b[1] == '.' {
        assert(bs =~= seq!['.', '.']);
        return crate::text::chars_to_string(&crate::text::to_chars("archive"));
    }
    proof {
        if bs == seq!['.'] {
            assert(b@.len() == 1 && b@[0] == '.');
        }
        if bs == seq!['.', '.'] {
            assert(b@.len() == 2 && b@[0] == '.' && b@[1] == '.');
        }
    }
    crate::text::chars_to_string(&b)
}

/// Builds archive file names from a template, the container kind's
/// extension, and the current time, avoiding names already taken.
pub struct ArchiveNamer {
    pub base_name: Option<String>,
    pub destination: String,
    pub algorithm: String,
    pub date_format: String,
    pub source_path: Option<String>,
}

/// The file extension of an algorithm name; unknown names fall back to
/// a generic extension.
pub open spec fn ext_of(algorithm: Seq<char>) -> Seq<char> {
    if algorithm == "tar.gz"@ {
        "tar.gz"@
    } else if algorithm == "tar.zst"@ {
        "tar.zst"@
    } else if algorithm == "zip"@ {
        "zip"@
    } else {
        "archive"@
    }
}

/// A naming template with every placeholder replaced: the date fields
/// from the clock values, the algorithm name, and — when a source path
/// is set — the source's file name.
pub open spec fn expand_spec(n: ArchiveNamer, t: TimeParts, template: Seq<char>) -> Seq<char> {
    let s1 = replace_seq(template, "{date}"@, t.date@);
    let s2 = replace_seq(s1, "{algo}"@, n.algorithm@);
    let s3 = replace_seq(s2, "{algorithm}"@, n.algorithm@);
    let s4 = if n.source_path is Some {
        replace_seq(s3, "{source}"@, base_name_of(n.source_path->0@))
    } else {
        s3
    };
    let s5 = replace_seq(s4, "{timestamp}"@, t.timestamp@);
    let s6 = replace_seq(s5, "{year}"@, t.year@);
    let s7 = replace_seq(s6, "{month}"@, t.month@);
    let s8 = replace_seq(s7, "{day}"@, t.day@);
    let s9 = replace_seq(s8, "{hour}"@, t.hour@);
    replace_seq(s9, "{minute}"@, t.minute@)
}

/// `base.ext`.
pub open spec fn plain_name(base: Seq<char>, ext: Seq<char>) -> Seq<char> {
    base + seq!['.'] + ext
}

/// `base.c.ext` for a collision counter `c`.
pub open spec fn counter_name(base: Seq<char>, c: int, ext: Seq<char>) -> Seq<char> {
    base + seq!['.'] + dec_str(c) + seq!['.'] + ext
}

/// `base.copy.ext`, the fallback when every counter is taken.
pub open spec fn copy_name(base: Seq<char>, ext: Seq<char>) -> Seq<char> {
    base + seq!['.', 'c', 'o', 'p', 'y', '.'] + ext
}

/// The first free counter name from `c` upward, or the copy name when
/// the counters 1 through 9999 are all taken.
pub open spec fn first_free(base: Seq<char>, ext: Seq<char>, taken: Seq<Seq<char>>, c: int) -> Seq<
    char,
>
    decreases 10000 - c,
{
    if c < 1 || c > 9999 {
        copy_name(base, ext)
    } else if !taken.contains(counter_name(base, c, ext)) {
        counter_name(base, c, ext)
    } else {
        first_free(base, ext, taken, c + 1)
    }
}

/// The name the collision rule yields: `base.ext` when free, else the
/// first free `base.c.ext` for `c` counting up from 1, else
/// `base.copy.ext`.
pub open spec fn resolve_spec(base: Seq<char>, ext: Seq<char>, taken: Seq<Seq<char>>) -> Seq<
    char,
> {
    if !taken.contains(plain_name(base, ext)) {
        plain_name(base, ext)
    } else {
        first_free(base, ext, taken, 1)
    }
}

/// Decide whether `name` occurs in the list.
fn list_contains(names: &Vec<String>, name: &str) -> (r: bool)
    ensures
        r == names.deep_view().contains(name@),
{
    let n = names.len();
    for i in 0..n
        invariant
            n == names@.len(),
            forall|k: int| 0 <= k < i ==> names.deep_view()[k] != name@,
    {
        if str_eq(names[i].as_str(), name) {
            assert(names.deep_view()[i as int] == name@);
            return true;
        }
    }
    assert(forall|k: int| 0 <= k < names.deep_view().len() ==> names.deep_view()[k] != name@);
    false
}

/// Join `base`, a dot, and `ext`.
fn join_plain(base: &str, ext: &str) -> (r: String)
    ensures
        r@ == plain_name(base@, ext@),
{
    let mut r = crate::text::chars_to_string(&crate::text::to_chars(base));
    crate::text::push_char(&mut r, '.');
    r.append(ext);
    assert(r@ =~= plain_name(base@, ext@));
    r
}

/// Join `base`, the counter `c`, and `ext`, dot-separated.
fn join_counter(base: &str, c: u64, ext: &str) -> (r: String)
    ensures
        r@ == counter_name(base@, c as int, ext@),
{
    let mut r = crate::text::chars_to_string(&crate::text::to_chars(base));
    crate::text::push_char(&mut r, '.');
    let digits = crate::text::u64_to_string(c);
    r.append(digits.as_str());
    crate::text::push_char(&mut r, '.');
    r.append(ext);
    assert(r@ =~= counter_name(base@, c as int, ext@));
    r
}

/// Pick a file name that is not yet taken at the destination: `base.ext`
/// when free; otherwise `base.c.ext` for the first free counter `c` in
/// 1..=9999; otherwise `base.copy.ext`.
pub fn resolve_collision(base: &str, ext: &str, taken: &Vec<String>) -> (r: String)
    ensures
        r@ == resolve_spec(base@, ext@, taken.deep_view()),
{
    let plain = join_plain(base, ext);
    if !list_contains(taken, plain.as_str()) {
        return plain;
    }
    let mut c: u64 = 1;
    while c <= 9999
        invariant
            1 <= c <= 10000,
            taken.deep_view().contains(plain_name(base@, ext@)),
            first_free(base@, ext@, taken.deep_view(), 1) == first_free(
                base@,
                ext@,
                taken.deep_view(),
                c as int,
            ),
        decreases 10000 - c,
    {
        let candidate = join_counter(base, c, ext);
        if !list_contains(taken, candidate.as_str()) {
            return candidate;
        }
        c = c + 1;
    }
    let mut r = crate::text::chars_to_string(&crate::text::to_chars(base));
    crate::text::push_char(&mut r, '.');
    crate::text::push_char(&mut r, 'c');
    crate::text::push_char(&mut r, 'o');
    crate::text::push_char(&mut r, 'p');
    crate::text::push_char(&mut r, 'y');
    crate::text::push_char(&mut r, '.');
    r.append(ext);
    assert(r@ =~= copy_name(base@, ext@));
    r
}

impl ArchiveNamer {
    /// A namer for the given template, destination, algorithm and date
    /// format, with no source path yet.
    pub fn new(
        base_name: Option<String>,
        destination: String,
        algorithm: String,
        date_format: String,
    ) -> (r: Self)
        ensures
            r.base_name == base_name,
            r.destination == destination,
            r.algorithm == algorithm,
            r.date_format == date_format,
            r.source_path is None,
    {
        ArchiveNamer { base_name, destination, algorithm, date_format, source_path: None }
    }

    /// Set the source path whose file name a `{source}` placeholder
    /// expands to.
    pub fn with_source_path(self, source: String) -> (r: Self)
        ensures
            r == (ArchiveNamer { source_path: Some(source), ..self }),
    {
        ArchiveNamer { source_path: Some(source), ..self }
    }

    /// The extension the configured algorithm implies.
    pub fn get_extension(&self) -> (r: &str)
        ensures
            r@ == ext_of(self.algorithm@),
    {
        if str_eq(self.algorithm.as_str(), "tar.gz") {
            "tar.gz"
        } else if str_eq(self.algorithm.as_str(), "tar.zst") {
            "tar.zst"
        } else if str_eq(self.algorithm.as_str(), "zip") {
            "zip"
        } else {
            "archive"
        }
    }

    /// Expand every placeholder of `template` against the given clock
    /// values.
    pub fn expand_template(&self, template: &str, time: &TimeParts) -> (r: String)
        ensures
            r@ == expand_spec(*self, *time, template@),
    {
        let s1 = replace_all(template, "{date}", time.date.as_str());
        let s2 = replace_all(s1.as_str(), "{algo}", self.algorithm.as_str());
        let s3 = replace_all(s2.as_str(), "{algorithm}", self.algorithm.as_str());
        let s4 = match &self.source_path {
            Some(source) => {
                let name = base_name(source.as_str());
                replace_all(s3.as_str(), "{source}", name.as_str())
            },
            None => s3,
        };
        let s5 = replace_all(s4.as_str(), "{timestamp}", time.timestamp.as_str());
        let s6 = replace_all(s5.as_str(), "{year}", time.year.as_str());
        let s7 = replace_all(s6.as_str(), "{month}", time.month.as_str());
        let s8 = replace_all(s7.as_str(), "{day}", time.day.as_str());
        let s9 = replace_all(s8.as_str(), "{hour}", time.hour.as_str());
        replace_all(s9.as_str(), "{minute}", time.minute.as_str())
    }

    /// Expand `name` and append the extension, as the archive's file
    /// name would look right now.
    pub fn preview(&self, name: &str) -> (r: String)
        ensures
            exists|t: TimeParts|
                r@ == plain_name(expand_spec(*self, t, name@), ext_of(self.algorithm@)),
    {
        let time = TimeParts::now(self.date_format.as_str());
        let expanded = self.expand_template(name, &time);
        let ext = self.get_extension();
        let r = join_plain(expanded.as_str(), ext);
        proof {
            assert(r@ == plain_name(expand_spec(*self, time, name@), ext_of(self.algorithm@)));
        }
        r
    }

    /// Produce the archive's file name: the expanded template (or the
    /// date format alone when no template is set) with the kind's
    /// extension, suffixed by the collision rule against the names
    /// already present at the destination.
    pub fn generate(&self, existing: &Vec<String>) -> (r: Result<String, ArchiveError>)
        ensures
            r is Ok,
            self.base_name is Some ==> exists|t: TimeParts|
                r->Ok_0@ == resolve_spec(
                    expand_spec(*self, t, self.base_name->0@),
                    ext_of(self.algorithm@),
                    existing.deep_view(),
                ),
            self.base_name is None ==> exists|base: Seq<char>|
                r->Ok_0@ == resolve_spec(base, ext_of(self.algorithm@), existing.deep_view()),
    {
        let time = TimeParts::now(self.date_format.as_str());
        let base = match &self.base_name {
            Some(name) => self.expand_template(name.as_str(), &time),
            None => render_now(self.date_format.as_str()),
        };
        let ext = self.get_extension();
        let r = resolve_collision(base.as_str(), ext, existing);
        Ok(r)
    }
}

/// Ready-made naming templates offered to interactive users.
pub struct NamingPresets;

impl NamingPresets {
    /// Every preset: its display name and its template.
    pub fn all() -> (r: Vec<(&'static str, &'static str)>)
        ensures
            r@.len() == 6,
            r@[0].0@ == "Date & Time"@ && r@[0].1@ == "{date}"@,
            r@[1].0@ == "Source Name + Date"@ && r@[1].1@ == "{source}_{date}"@,
            r@[2].0@ == "Algorithm + Date"@ && r@[2].1@ == "{algo}_{date}"@,
            r@[3].0@ == "Year/Month/Day"@ && r@[3].1@ == "{year}{month}{day}_{hour}{minute}"@,
            r@[4].0@ == "Source + Algorithm"@ && r@[4].1@ == "{source}_{algo}"@,
            r@[5].0@ == "Timestamp"@ && r@[5].1@ == "backup_{timestamp}"@,
    {
        let mut r: Vec<(&'static str, &'static str)> = Vec::new();
        r.push(("Date & Time", "{date}"));
        r.push(("Source Name + Date", "{source}_{date}"));
        r.push(("Algorithm + Date", "{algo}_{date}"));
        r.push(("Year/Month/Day", "{year}{month}{day}_{hour}{minute}"));
        r.push(("Source + Algorithm", "{source}_{algo}"));
        r.push(("Timestamp", "backup_{timestamp}"));
        r
    }

    /// Render a preset template as an example file name.
    pub fn get_example(preset: &str, namer: &ArchiveNamer) -> (r: String)
        ensures
            exists|t: TimeParts|
                r@ == plain_name(expand_spec(*namer, t, preset@), ext_of(namer.algorithm@)),
    {
        namer.preview(preset)
    }
}

} // verus!
