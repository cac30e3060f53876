//! Verified text utilities: character-level search, replacement,
//! ASCII case folding, and decimal formatting.
//!
//! Strings are modelled by their `Seq<char>` views; the executable code
//! works on `Vec<char>` copies so that indexing is constant-time.

use vstd::prelude::*;

verus! {

/// Relies on `String::push`: appends exactly one character to the string.
#[verifier::external_body]
pub fn push_char(s: &mut String, c: char)
    ensures
        final(s)@ == old(s)@.push(c),
{
    s.push(c);
}

/// Copy a string slice into a vector of its characters.
pub fn to_chars(s: &str) -> (r: Vec<char>)
    ensures
        r@ == s@,
{
    let n = s.unicode_len();
    let mut r: Vec<char> = Vec::new();
    for i in 0..n
        invariant
            n == s@.len(),
            r@ == s@.take(i as int),
    {
        r.push(s.get_char(i));
        assert(r@ =~= s@.take(i + 1));
    }
    assert(r@ =~= s@);
    r
}

/// Build a `String` whose view is the given character sequence.
pub fn chars_to_string(v: &Vec<char>) -> (r: String)
    ensures
        r@ == v@,
{
    let mut r = String::new();
    let n = v.len();
    for i in 0..n
        invariant
            n == v@.len(),
            r@ == v@.take(i as int),
    {
        push_char(&mut r, v[i]);
        assert(r@ =~= v@.take(i + 1));
    }
    assert(r@ =~= v@);
    r
}

/// True when `pat` occurs in `hay` starting at position `i`.
pub open spec fn matches_at(hay: Seq<char>, i: int, pat: Seq<char>) -> bool {
    0 <= i && i + pat.len() <= hay.len() && hay.subrange(i, i + pat.len() as int) == pat
}

/// True when `pat` occurs somewhere in `hay`.
pub open spec fn contains_seq(hay: Seq<char>, pat: Seq<char>) -> bool {
    exists|i: int| matches_at(hay, i, pat)
}

/// Decide whether `pat` occurs in `hay` at position `i`.
pub fn check_match(hay: &Vec<char>, i: usize, pat: &Vec<char>) -> (r: bool)
    requires
        i <= hay@.len(),
    ensures
        r == matches_at(hay@, i as int, pat@),
{
    let hn = hay.len();
    if pat.len() > hn - i {
        assert(!matches_at(hay@, i as int, pat@));
        return false;
    }
    let n = pat.len();
    for j in 0..n
        invariant
            n == pat@.len(),
            hn == hay@.len(),
            i + n <= hn,
            hay@.subrange(i as int, i + j) =~= pat@.take(j as int),
    {
        if hay[i + j] != pat[j] {
            assert(hay@.subrange(i as int, i + n as int)[j as int] != pat@[j as int]);
            return false;
        }
        assert(hay@.subrange(i as int, i + j + 1) =~= pat@.take(j + 1));
    }
    assert(hay@.subrange(i as int, i + n as int) =~= pat@);
    true
}

/// Decide whether `pat` occurs anywhere in `hay`.
pub fn contains_chars(hay: &Vec<char>, pat: &Vec<char>) -> (r: bool)
    ensures
        r == contains_seq(hay@, pat@),
{
    let n = hay.len();
    if pat.len() > n {
        assert(forall|i: int| !matches_at(hay@, i, pat@));
        return false;
    }
    if pat.len() == 0 {
        assert(hay@.subrange(0, 0) =~= pat@);
        assert(matches_at(hay@, 0, pat@));
        return true;
    }
    let last = n - pat.len();
    let mut i: usize = 0;
    while i <= last
        invariant
            0 < pat@.len() <= hay@.len(),
            n == hay@.len(),
            last == hay@.len() - pat@.len(),
            i <= last + 1,
            forall|k: int| 0 <= k < i ==> !matches_at(hay@, k, pat@),
        decreases last + 1 - i,
    {
        if check_match(hay, i, pat) {
            return true;
        }
        i = i + 1;
    }
    assert(forall|k: int| i <= k ==> !matches_at(hay@, k, pat@));
    false
}

/// Decide whether the string `hay` contains the string `pat`.
pub fn str_contains(hay: &str, pat: &str) -> (r: bool)
    ensures
        r == contains_seq(hay@, pat@),
{
    let h = to_chars(hay);
    let p = to_chars(pat);
    contains_chars(&h, &p)
}

/// True when `s` ends with the suffix `suffix`.
pub open spec fn ends_with_seq(s: Seq<char>, suffix: Seq<char>) -> bool {
    s.len() >= suffix.len() && s.subrange(s.len() - suffix.len(), s.len() as int) == suffix
}

/// Decide whether the string `s` ends with `suffix`.
pub fn str_ends_with(s: &str, suffix: &str) -> (r: bool)
    ensures
        r == ends_with_seq(s@, suffix@),
{
    let v = to_chars(s);
    let p = to_chars(suffix);
    if p.len() > v.len() {
        return false;
    }
    let start = v.len() - p.len();
    let r = check_match(&v, start, &p);
    assert(matches_at(v@, start as int, p@) == ends_with_seq(s@, suffix@));
    r
}

/// True when `s` starts with the prefix `prefix`.
pub open spec fn starts_with_seq(s: Seq<char>, prefix: Seq<char>) -> bool {
    s.len() >= prefix.len() && s.subrange(0, prefix.len() as int) == prefix
}

/// Decide whether the string `s` starts with `prefix`.
pub fn str_starts_with(s: &str, prefix: &str) -> (r: bool)
    ensures
        r == starts_with_seq(s@, prefix@),
{
    let v = to_chars(s);
    let p = to_chars(prefix);
    if p.len() > v.len() {
        return false;
    }
    let r = check_match(&v, 0, &p);
    assert(matches_at(v@, 0, p@) == starts_with_seq(s@, prefix@));
    r
}

/// Decide whether two string slices hold the same characters.
pub fn str_eq(a: &str, b: &str) -> (r: bool)
    ensures
        r == (a@ == b@),
{
    let va = to_chars(a);
    let vb = to_chars(b);
    if va.len() != vb.len() {
        return false;
    }
    assert(va@.subrange(0, vb@.len() as int) =~= va@);
    let r = check_match(&va, 0, &vb);
    if r {
        assert(a@ =~= b@);
    }
    r
}

/// Every occurrence of `pat` in `s` replaced by `rep`, scanning left to
/// right without revisiting replaced text; an empty pattern leaves `s`
/// unchanged.
pub open spec fn replace_seq(s: Seq<char>, pat: Seq<char>, rep: Seq<char>) -> Seq<char>
    decreases s.len(),
{
    if pat.len() == 0 || s.len() < pat.len() {
        s
    } else if s.subrange(0, pat.len() as int) == pat {
        rep + replace_seq(s.skip(pat.len() as int), pat, rep)
    } else {
        seq![s[0]] + replace_seq(s.skip(1), pat, rep)
    }
}

proof fn lemma_replace_step(s: Seq<char>, pat: Seq<char>, rep: Seq<char>, i: int)
    requires
        0 < pat.len(),
        0 <= i,
        i + pat.len() <= s.len(),
    ensures
        matches_at(s, i, pat) ==> replace_seq(s.skip(i), pat, rep) == rep + replace_seq(
            s.skip(i + pat.len()),
            pat,
            rep,
        ),
        !matches_at(s, i, pat) ==> replace_seq(s.skip(i), pat, rep) == seq![s[i]] + replace_seq(
            s.skip(i + 1),
            pat,
            rep,
        ),
{
    let t = s.skip(i);
    assert(t.subrange(0, pat.len() as int) =~= s.subrange(i, i + pat.len() as int));
    if matches_at(s, i, pat) {
        assert(t.skip(pat.len() as int) =~= s.skip(i + pat.len()));
    } else {
        assert(t.skip(1) =~= s.skip(i + 1));
        assert(t[0] == s[i]);
    }
}

/// Replace every occurrence of `pat` in `s` by `rep`.
pub fn replace_all(s: &str, pat: &str, rep: &str) -> (r: String)
    ensures
        r@ == replace_seq(s@, pat@, rep@),
{
    let v = to_chars(s);
    let p = to_chars(pat);
    let q = to_chars(rep);
    let mut out: Vec<char> = Vec::new();
    if p.len() == 0 {
        return chars_to_string(&v);
    }
    let n = v.len();
    let mut i: usize = 0;
    proof {
        assert(v@.skip(0) =~= v@);
        assert(out@ + replace_seq(s@, pat@, rep@) =~= replace_seq(s@, pat@, rep@));
    }
    if p.len() <= n {
        let last = n - p.len();
        while i <= last
            invariant
                v@ == s@,
                p@ == pat@,
                q@ == rep@,
                0 < p@.len() <= n,
                n == v@.len(),
                last == n - p@.len(),
                i <= n,
                replace_seq(s@, pat@, rep@) == out@ + replace_seq(v@.skip(i as int), p@, q@),
            decreases n - i,
        {
            proof {
                lemma_replace_step(v@, p@, q@, i as int);
            }
            if check_match(&v, i, &p) {
                let mut k: usize = 0;
                let ghost out0 = out@;
                while k < q.len()
                    invariant
                        k <= q@.len(),
                        out@ == out0 + q@.take(k as int),
                    decreases q@.len() - k,
                {
                    out.push(q[k]);
                    assert(out@ =~= out0 + q@.take(k + 1));
                    k = k + 1;
                }
                assert(out@ =~= out0 + q@);
                i = i + p.len();
            } else {
                out.push(v[i]);
                i = i + 1;
            }
        }
    }
    let ghost tail_start = i as int;
    let ghost out_mid = out@;
    assert(replace_seq(v@.skip(tail_start), p@, q@) == v@.skip(tail_start));
    assert(out@ =~= out_mid + v@.subrange(tail_start, tail_start));
    while i < n
        invariant
            n == v@.len(),
            0 <= tail_start <= i <= n,
            out@ == out_mid + v@.subrange(tail_start, i as int),
        decreases n - i,
    {
        out.push(v[i]);
        assert(out@ =~= out_mid + v@.subrange(tail_start, i + 1));
        i = i + 1;
    }
    assert(out@ =~= out_mid + v@.skip(tail_start));
    chars_to_string(&out)
}

/// ASCII lower-casing of one character; other characters are unchanged.
pub open spec fn lower_char(c: char) -> char {
    if 'A' <= c && c <= 'Z' {
        ((c as u32) + 32) as char
    } else {
        c
    }
}

/// ASCII lower-casing of a character sequence.
pub open spec fn lower_seq(s: Seq<char>) -> Seq<char> {
    s.map_values(|c: char| lower_char(c))
}

/// Lower-case one ASCII character.
pub fn lower_char_exec(c: char) -> (r: char)
    ensures
        r == lower_char(c),
{
    if 'A' <= c && c <= 'Z' {
        (((c as u32) + 32) as u8) as char
    } else {
        c
    }
}

/// ASCII-lower-case a string; non-ASCII characters are unchanged.
pub fn to_ascii_lower(s: &str) -> (r: String)
    ensures
        r@ == lower_seq(s@),
{
    let v = to_chars(s);
    let mut out: Vec<char> = Vec::new();
    let n = v.len();
    for i in 0..n
        invariant
            n == v@.len(),
            v@ == s@,
            out@ == lower_seq(s@.take(i as int)),
    {
        out.push(lower_char_exec(v[i]));
        assert(out@ =~= lower_seq(s@.take(i + 1)));
    }
    assert(out@ =~= lower_seq(s@));
    chars_to_string(&out)
}

/// Decide whether `a` and `b` are equal up to ASCII case.
pub fn eq_ignore_ascii_case(a: &str, b: &str) -> (r: bool)
    ensures
        r == (lower_seq(a@) == lower_seq(b@)),
{
    let la = to_ascii_lower(a);
    let lb = to_ascii_lower(b);
    str_eq(la.as_str(), lb.as_str())
}

/// Splitting on a separator, accumulator-style: scanning from position
/// `i` with the partial segment `cur` and the segments `acc` found so
/// far.  Every boundary yields a segment, empty ones included.
pub open spec fn split_sep_from(
    s: Seq<char>,
    sep: char,
    i: int,
    cur: Seq<char>,
    acc: Seq<Seq<char>>,
) -> Seq<Seq<char>>
    decreases s.len() - i,
{
    if i < 0 || i >= s.len() {
        acc.push(cur)
    } else if s[i] == sep {
        split_sep_from(s, sep, i + 1, seq![], acc.push(cur))
    } else {
        split_sep_from(s, sep, i + 1, cur.push(s[i]), acc)
    }
}

/// The segments of `s` between occurrences of `sep`.
pub open spec fn split_sep(s: Seq<char>, sep: char) -> Seq<Seq<char>> {
    split_sep_from(s, sep, 0, seq![], seq![])
}

/// ASCII upper-casing of one character; other characters are unchanged.
pub open spec fn upper_char(c: char) -> char {
    if 'a' <= c && c <= 'z' {
        ((c as u32) - 32) as char
    } else {
        c
    }
}

/// ASCII upper-casing of a character sequence.
pub open spec fn upper_seq(s: Seq<char>) -> Seq<char> {
    s.map_values(|c: char| upper_char(c))
}

/// Upper-case one ASCII character.
pub fn upper_char_exec(c: char) -> (r: char)
    ensures
        r == upper_char(c),
{
    if 'a' <= c && c <= 'z' {
        (((c as u32) - 32) as u8) as char
    } else {
        c
    }
}

/// ASCII-upper-case a string; non-ASCII characters are unchanged.
pub fn to_ascii_upper(s: &str) -> (r: String)
    ensures
        r@ == upper_seq(s@),
{
    let v = to_chars(s);
    let mut out: Vec<char> = Vec::new();
    let n = v.len();
    for i in 0..n
        invariant
            n == v@.len(),
            v@ == s@,
            out@ == upper_seq(s@.take(i as int)),
    {
        out.push(upper_char_exec(v[i]));
        assert(out@ =~= upper_seq(s@.take(i + 1)));
    }
    assert(out@ =~= upper_seq(s@));
    chars_to_string(&out)
}

/// Strict lexicographic order on character sequences, by code point.
pub open spec fn lex_lt(a: Seq<char>, b: Seq<char>) -> bool
    decreases a.len(),
{
    if b.len() == 0 {
        false
    } else if a.len() == 0 {
        true
    } else if a[0] != b[0] {
        (a[0] as u32) < (b[0] as u32)
    } else {
        lex_lt(a.skip(1), b.skip(1))
    }
}

/// Decide whether `a` comes strictly before `b` in lexicographic order.
pub fn str_lt(a: &str, b: &str) -> (r: bool)
    ensures
        r == lex_lt(a@, b@),
{
    let va = to_chars(a);
    let vb = to_chars(b);
    proof {
        assert(va@.skip(0) =~= va@);
        assert(vb@.skip(0) =~= vb@);
    }
    let mut i: usize = 0;
    loop
        invariant
            va@ == a@,
            vb@ == b@,
            i <= va@.len(),
            i <= vb@.len(),
            forall|k: int| 0 <= k < i ==> va@[k] == vb@[k],
            lex_lt(a@, b@) == lex_lt(va@.skip(i as int), vb@.skip(i as int)),
        decreases va@.len() - i,
    {
        proof {
            if i < va@.len() && i < vb@.len() && va@[i as int] == vb@[i as int] {
                assert(va@.skip(i as int).skip(1) =~= va@.skip(i as int + 1));
                assert(vb@.skip(i as int).skip(1) =~= vb@.skip(i as int + 1));
            }
        }
        if i >= vb.len() {
            assert(vb@.skip(i as int).len() == 0);
            return false;
        }
        if i >= va.len() {
            assert(va@.skip(i as int).len() == 0 && vb@.skip(i as int).len() > 0);
            return true;
        }
        let ca = va[i];
        let cb = vb[i];
        if ca != cb {
            assert(va@.skip(i as int)[0] == ca && vb@.skip(i as int)[0] == cb);
            return (ca as u32) < (cb as u32);
        }
        i = i + 1;
    }
}

/// The decimal digit character for `d`.
pub open spec fn digit_char(d: int) -> char {
    ((d + 48) as u32) as char
}

/// The decimal representation of `n`, most significant digit first.
pub open spec fn dec_str(n: int) -> Seq<char>
    decreases n,
{
    if n < 10 {
        seq![digit_char(n)]
    } else {
        dec_str(n / 10).push(digit_char(n % 10))
    }
}

fn digit_exec(d: u64) -> (r: char)
    requires
        d < 10,
    ensures
        r == digit_char(d as int),
{
    ((d as u8) + 48) as char
}

fn push_dec(n: u64, out: &mut String)
    ensures
        final(out)@ == old(out)@ + dec_str(n as int),
    decreases n,
{
    if n < 10 {
        push_char(out, digit_exec(n));
        assert(final(out)@ =~= old(out)@ + dec_str(n as int));
    } else {
        push_dec(n / 10, out);
        push_char(out, digit_exec(n % 10));
        assert(final(out)@ =~= old(out)@ + dec_str(n as int));
    }
}

/// Format `n` in decimal.
pub fn u64_to_string(n: u64) -> (r: String)
    ensures
        r@ == dec_str(n as int),
{
    let mut r = String::new();
    push_dec(n, &mut r);
    assert(r@ =~= dec_str(n as int));
    r
}


fn push_dec_u128(n: u128, out: &mut String)
    ensures
        final(out)@ == old(out)@ + dec_str(n as int),
    decreases n,
{
    if n < 10 {
        push_char(out, digit_exec((n as u64) % 10));
        assert(final(out)@ =~= old(out)@ + dec_str(n as int));
    } else {
        push_dec_u128(n / 10, out);
        push_char(out, digit_exec((n % 10) as u64));
        assert(final(out)@ =~= old(out)@ + dec_str(n as int));
    }
}

/// Format a wide number in decimal.
pub fn u128_to_string(n: u128) -> (r: String)
    ensures
        r@ == dec_str(n as int),
{
    let mut r = String::new();
    push_dec_u128(n, &mut r);
    assert(r@ =~= dec_str(n as int));
    r
}

/// The decimal representation of a possibly negative number.
pub open spec fn signed_dec_str(n: int) -> Seq<char> {
    if n < 0 {
        seq!['-'] + dec_str(-n)
    } else {
        dec_str(n)
    }
}

/// Format a signed number in decimal.
pub fn signed_to_string(value: i64) -> (r: String)
    ensures
        r@ == signed_dec_str(value as int),
{
    if value >= 0 {
        let r = u64_to_string(value as u64);
        assert(r@ =~= signed_dec_str(value as int));
        r
    } else {
        let magnitude = ((-(value + 1)) as u64) + 1;
        assert(magnitude == -(value as int));
        let mut r = String::new();
        push_char(&mut r, '-');
        push_dec(magnitude, &mut r);
        assert(r@ =~= signed_dec_str(value as int));
        r
    }
}

} // verus!
