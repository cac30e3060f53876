//! Remote upload targets and the parsing of transfer progress lines.
//!
//! Running the transfer tool and talking to a database are the
//! surrounding code's concern; here live the destination descriptions
//! and the verified parser for the tool's progress output.

use vstd::prelude::*;

use crate::text::{split_sep, split_sep_from};

verus! {

/// Where an archive is uploaded to.
#[derive(Debug, Clone)]
pub enum RemoteDestination {
    /// A remote of the sync tool: its configured name and a path on it.
    Rclone { remote: String, path: String },
    /// A database table reached over the network.
    Database { host: String, port: u16, username: String, database: String, table: String },
}

impl RemoteDestination {
    /// A sync-tool destination.
    pub fn from_rclone(remote: &str, path: &str) -> (r: Self)
        ensures
            r is Rclone,
            r->Rclone_remote@ == remote@,
            r->Rclone_path@ == path@,
    {
        RemoteDestination::Rclone {
            remote: String::from_str(remote),
            path: String::from_str(path),
        }
    }

    /// A database destination.
    pub fn from_database(host: &str, port: u16, username: &str, database: &str, table: &str) -> (r:
        Self)
        ensures
            r is Database,
            r->Database_host@ == host@,
            r->Database_port == port,
            r->Database_username@ == username@,
            r->Database_database@ == database@,
            r->Database_table@ == table@,
    {
        RemoteDestination::Database {
            host: String::from_str(host),
            port,
            username: String::from_str(username),
            database: String::from_str(database),
            table: String::from_str(table),
        }
    }
}

/// The prefix of `s` before the first occurrence of `c`, or all of `s`.
pub open spec fn prefix_before(s: Seq<char>, c: char) -> Seq<char>
    decreases s.len(),
{
    if s.len() == 0 {
        s
    } else if s[0] == c {
        Seq::empty()
    } else {
        seq![s[0]] + prefix_before(s.skip(1), c)
    }
}

/// ASCII whitespace trimmed from the front of `s`.
pub open spec fn trim_start_ws(s: Seq<char>) -> Seq<char>
    decreases s.len(),
{
    if s.len() > 0 && crate::crypto::ws(s[0]) {
        trim_start_ws(s.skip(1))
    } else {
        s
    }
}

/// ASCII whitespace trimmed from the back of `s`.
pub open spec fn trim_end_ws(s: Seq<char>) -> Seq<char>
    decreases s.len(),
{
    if s.len() > 0 && crate::crypto::ws(s.last()) {
        trim_end_ws(s.drop_last())
    } else {
        s
    }
}

/// ASCII whitespace trimmed from both ends.
pub open spec fn trim_ws(s: Seq<char>) -> Seq<char> {
    trim_end_ws(trim_start_ws(s))
}

/// The value of a digit string, most significant digit first.
pub open spec fn dec_value(s: Seq<char>) -> int
    decreases s.len(),
{
    if s.len() == 0 {
        0
    } else {
        dec_value(s.drop_last()) * 10 + (s.last() as int - 48)
    }
}

/// True when every character of `s` is a decimal digit.
pub open spec fn all_digits(s: Seq<char>) -> bool {
    forall|i: int| 0 <= i < s.len() ==> '0' <= #[trigger] s[i] && s[i] <= '9'
}

/// What parsing `s` as a byte-sized number yields: an optional leading
/// plus sign, then decimal digits whose value is at most 255.
pub open spec fn parse_u8_spec(s: Seq<char>) -> Option<u8> {
    let d = if s.len() > 0 && s[0] == '+' {
        s.skip(1)
    } else {
        s
    };
    if d.len() > 0 && all_digits(d) && dec_value(d) <= 255 {
        Some(dec_value(d) as u8)
    } else {
        None
    }
}

/// The first comma-separated segment of `line` holding a percent sign,
/// if any.
pub open spec fn first_percent_segment(segments: Seq<Seq<char>>, i: int) -> Option<Seq<char>>
    decreases segments.len() - i,
{
    if i < 0 || i >= segments.len() {
        None
    } else if crate::text::contains_seq(segments[i], seq!['%']) {
        Some(segments[i])
    } else {
        first_percent_segment(segments, i + 1)
    }
}

/// What the progress parser yields for a line of the transfer tool's
/// output: in the first comma-separated segment holding a percent sign,
/// the text before the sign, trimmed, read as a number up to 255.
pub open spec fn progress_of_line(line: Seq<char>) -> Option<u8> {
    match first_percent_segment(split_sep(line, ','), 0) {
        None => None,
        Some(seg) => parse_u8_spec(trim_ws(prefix_before(seg, '%'))),
    }
}

/// Split a string at every occurrence of `sep`.
fn split_on(s: &str, sep: char) -> (r: Vec<String>)
    ensures
        r.deep_view() == split_sep(s@, sep),
{
    let v = crate::text::to_chars(s);
    let n = v.len();
    let mut acc: Vec<String> = Vec::new();
    let mut cur: Vec<char> = Vec::new();
    proof {
        assert(acc.deep_view() =~~= Seq::<Seq<char>>::empty());
        assert(cur@ =~= Seq::<char>::empty());
    }
    for i in 0..n
        invariant
            n == v@.len(),
            v@ == s@,
            split_sep(s@, sep) == split_sep_from(s@, sep, i as int, cur@, acc.deep_view()),
    {
        let ghost pre_cur = cur@;
        let ghost pre_acc = acc.deep_view();
        if v[i] == sep {
            acc.push(crate::text::chars_to_string(&cur));
            cur = Vec::new();
            proof {
                assert(acc.deep_view() =~~= pre_acc.push(pre_cur));
                assert(cur@ =~= Seq::<char>::empty());
                assert(split_sep_from(s@, sep, i as int, pre_cur, pre_acc) == split_sep_from(
                    s@,
                    sep,
                    i + 1,
                    Seq::<char>::empty(),
                    pre_acc.push(pre_cur),
                ));
            }
        } else {
            cur.push(v[i]);
            proof {
                assert(cur@ == pre_cur.push(s@[i as int]));
                assert(split_sep_from(s@, sep, i as int, pre_cur, pre_acc) == split_sep_from(
                    s@,
                    sep,
                    i + 1,
                    pre_cur.push(s@[i as int]),
                    pre_acc,
                ));
            }
        }
    }
    let ghost pre_acc = acc.deep_view();
    acc.push(crate::text::chars_to_string(&cur));
    proof {
        assert(acc.deep_view() =~~= pre_acc.push(cur@));
    }
    acc
}

/// The characters of `v` before the first occurrence of `c`.
fn chars_prefix_before(v: &Vec<char>, c: char) -> (r: Vec<char>)
    ensures
        r@ == prefix_before(v@, c),
{
    let mut out: Vec<char> = Vec::new();
    let n = v.len();
    for i in 0..n
        invariant
            n == v@.len(),
            forall|k: int| 0 <= k < i ==> v@[k] != c,
            out@ == v@.take(i as int),
    {
        if v[i] == c {
            proof {
                lemma_prefix_before_found(v@, c, i as int);
            }
            return out;
        }
        out.push(v[i]);
        assert(out@ =~= v@.take(i + 1));
    }
    proof {
        lemma_prefix_before_none(v@, c);
        assert(out@ =~= v@);
    }
    out
}

proof fn lemma_prefix_before_found(s: Seq<char>, c: char, i: int)
    requires
        0 <= i < s.len(),
        s[i] == c,
        forall|k: int| 0 <= k < i ==> s[k] != c,
    ensures
        prefix_before(s, c) == s.take(i),
    decreases i,
{
    if i == 0 {
        assert(prefix_before(s, c) =~= s.take(0));
    } else {
        lemma_prefix_before_found(s.skip(1), c, i - 1);
        assert(seq![s[0]] + s.skip(1).take(i - 1) =~= s.take(i));
    }
}

proof fn lemma_prefix_before_none(s: Seq<char>, c: char)
    requires
        forall|k: int| 0 <= k < s.len() ==> s[k] != c,
    ensures
        prefix_before(s, c) == s,
    decreases s.len(),
{
    if s.len() > 0 {
        lemma_prefix_before_none(s.skip(1), c);
        assert(seq![s[0]] + s.skip(1) =~= s);
    }
}

/// Trim ASCII whitespace from both ends of a character vector.
fn chars_trim(v: &Vec<char>) -> (r: Vec<char>)
    ensures
        r@ == trim_ws(v@),
{
    let n = v.len();
    proof {
        assert(v@.skip(0) =~= v@);
    }
    let mut a: usize = 0;
    while a < n && ws_char(v[a])
        invariant
            a <= n,
            n == v@.len(),
            trim_start_ws(v@) == trim_start_ws(v@.skip(a as int)),
            forall|k: int| 0 <= k < a ==> crate::crypto::ws(v@[k]),
        decreases n - a,
    {
        proof {
            assert(v@.skip(a as int).skip(1) =~= v@.skip(a as int + 1));
        }
        a = a + 1;
    }
    proof {
        if a < n {
            assert(!crate::crypto::ws(v@.skip(a as int)[0]));
        }
        assert(trim_start_ws(v@) == v@.skip(a as int));
    }
    let mut b: usize = n;
    while b > a && ws_char(v[b - 1])
        invariant
            a <= b <= n,
            n == v@.len(),
            trim_start_ws(v@) == v@.skip(a as int),
            trim_end_ws(v@.skip(a as int)) == trim_end_ws(v@.subrange(a as int, b as int)),
        decreases b,
    {
        proof {
            assert(v@.subrange(a as int, b as int).drop_last() =~= v@.subrange(
                a as int,
                b as int - 1,
            ));
            assert(v@.subrange(a as int, b as int).last() == v@[b - 1]);
        }
        b = b - 1;
    }
    proof {
        let seg = v@.subrange(a as int, b as int);
        if seg.len() > 0 {
            assert(seg.last() == v@[b - 1]);
            assert(!crate::crypto::ws(seg.last()));
        }
        assert(trim_end_ws(seg) == seg);
    }
    let mut out: Vec<char> = Vec::new();
    let mut i = a;
    while i < b
        invariant
            a <= i <= b <= n,
            n == v@.len(),
            out@ == v@.subrange(a as int, i as int),
        decreases b - i,
    {
        out.push(v[i]);
        assert(out@ =~= v@.subrange(a as int, i + 1));
        i = i + 1;
    }
    proof {
        assert(out@ =~= trim_ws(v@));
    }
    out
}

fn ws_char(c: char) -> (r: bool)
    ensures
        r == crate::crypto::ws(c),
{
    c == ' ' || c == '\t' || c == '\n' || c == '\r'
}

/// Parse a trimmed digit string (with an optional leading plus) as a
/// number up to 255.
fn parse_u8_chars(v: &Vec<char>) -> (r: Option<u8>)
    ensures
        r == parse_u8_spec(v@),
{
    let start: usize = if v.len() > 0 && v[0] == '+' {
        1
    } else {
        0
    };
    let ghost d = if v@.len() > 0 && v@[0] == '+' {
        v@.skip(1)
    } else {
        v@
    };
    let n = v.len();
    if n == start {
        assert(d.len() == 0);
        return None;
    }
    let mut acc: u32 = 0;
    let mut big = false;
    let mut i = start;
    proof {
        assert(d =~= v@.subrange(start as int, n as int));
        assert(d.take(0) =~= Seq::<char>::empty());
    }
    while i < n
        invariant
            start <= i <= n,
            n == v@.len(),
            d == v@.subrange(start as int, n as int),
            d == (if v@.len() > 0 && v@[0] == '+' {
                v@.skip(1)
            } else {
                v@
            }),
            forall|k: int| start <= k < i ==> '0' <= #[trigger] v@[k] && v@[k] <= '9',
            !big ==> acc == dec_value(d.take(i - start)) && acc <= 255,
            big ==> dec_value(d.take(i - start)) > 255,
        decreases n - i,
    {
        let c = v[i];
        if c < '0' || c > '9' {
            proof {
                assert(d[i - start] == v@[i as int]);
                assert(!('0' <= d[i - start] && d[i - start] <= '9'));
                assert(!all_digits(d));
            }
            return None;
        }
        let digit: u32 = (c as u32) - 48;
        proof {
            assert(d.take(i - start + 1).drop_last() =~= d.take(i - start));
            assert(d.take(i - start + 1).last() == v@[i as int]);
        }
        if big {
            assert(dec_value(d.take(i - start + 1)) > 255);
        } else {
            let next = acc * 10 + digit;
            if next > 255 {
                big = true;
                assert(dec_value(d.take(i - start + 1)) > 255);
            } else {
                acc = next;
            }
        }
        i = i + 1;
    }
    proof {
        assert(d.take(n - start) =~= d);
        assert(all_digits(d));
    }
    if big {
        None
    } else {
        Some(acc as u8)
    }
}

/// Transfer operations around the sync tool; the processes themselves
/// run outside this crate.
pub struct RemoteTransfer;

impl RemoteTransfer {
    /// Read the percentage out of a progress line of the transfer tool:
    /// the number before the percent sign in the first comma-separated
    /// segment that carries one.
    pub fn extract_progress(line: &str) -> (r: Option<u8>)
        ensures
            r == progress_of_line(line@),
    {
        let segments = split_on(line, ',');
        let n = segments.len();
        for i in 0..n
            invariant
                n == segments@.len(),
                segments.deep_view() == split_sep(line@, ','),
                first_percent_segment(split_sep(line@, ','), 0) == first_percent_segment(
                    split_sep(line@, ','),
                    i as int,
                ),
                forall|k: int| 0 <= k < i ==> !crate::text::contains_seq(
                    #[trigger] split_sep(line@, ',')[k],
                    seq!['%'],
                ),
        {
            let seg = crate::text::to_chars(segments[i].as_str());
            let mut percent: Vec<char> = Vec::new();
            percent.push('%');
            assert(percent@ =~= seq!['%']);
            if crate::text::contains_chars(&seg, &percent) {
                let before = chars_prefix_before(&seg, '%');
                let trimmed = chars_trim(&before);
                let r = parse_u8_chars(&trimmed);
                proof {
                    assert(first_percent_segment(split_sep(line@, ','), i as int) == Some(
                        seg@,
                    ));
                }
                return r;
            }
        }
        proof {
            assert(first_percent_segment(split_sep(line@, ','), n as int) is None);
        }
        None
    }
}

} // verus!
