//! Display formatting: byte sizes, durations, percentages, thousands
//! grouping, compression ratios, and string truncation.
//!
//! Fractions are computed in integer arithmetic, rounding to the nearest
//! printed digit; terminal colouring and printing live outside this
//! crate.

use vstd::prelude::*;

use crate::text::{chars_to_string, dec_str, push_char, to_chars, u64_to_string};

verus! {

/// The unit index of a byte count: how many times 1024 divides it, at
/// most five (bytes up to petabytes).
pub open spec fn unit_index(bytes: int) -> int {
    if bytes < 1024 {
        0
    } else if bytes < 0x10_0000 {
        1
    } else if bytes < 0x4000_0000 {
        2
    } else if bytes < 0x100_0000_0000 {
        3
    } else if bytes < 0x4_0000_0000_0000 {
        4
    } else {
        5
    }
}

/// The unit symbol for a unit index.
pub open spec fn unit_symbol(e: int) -> Seq<char> {
    if e == 0 {
        seq!['B']
    } else if e == 1 {
        seq!['K', 'B']
    } else if e == 2 {
        seq!['M', 'B']
    } else if e == 3 {
        seq!['G', 'B']
    } else if e == 4 {
        seq!['T', 'B']
    } else {
        seq!['P', 'B']
    }
}

/// 1024 to the power of a unit index.
pub open spec fn unit_divisor(e: int) -> int {
    if e == 0 {
        1
    } else if e == 1 {
        1024
    } else if e == 2 {
        0x10_0000
    } else if e == 3 {
        0x4000_0000
    } else if e == 4 {
        0x100_0000_0000
    } else {
        0x4_0000_0000_0000
    }
}

/// The byte count scaled to its unit, in hundredths, rounded to nearest.
pub open spec fn scaled_hundredths(bytes: int) -> int {
    (bytes * 200 / unit_divisor(unit_index(bytes)) + 1) / 2
}

/// Two decimal digits for a value below 100.
pub open spec fn two_digits(f: int) -> Seq<char> {
    if f < 10 {
        seq!['0'] + dec_str(f)
    } else {
        dec_str(f)
    }
}

/// A byte count as text: the count scaled to its largest unit with two
/// decimals, or `0 B` for zero.
pub open spec fn bytes_str(bytes: int) -> Seq<char> {
    if bytes == 0 {
        seq!['0', ' ', 'B']
    } else {
        let h = scaled_hundredths(bytes);
        dec_str(h / 100) + seq!['.'] + two_digits(h % 100) + seq![' '] + unit_symbol(
            unit_index(bytes),
        )
    }
}

/// Format a byte count with its largest fitting unit.
pub fn format_bytes(bytes: u64) -> (r: String)
    ensures
        r@ == bytes_str(bytes as int),
{
    if bytes == 0 {
        let mut r = String::new();
        push_char(&mut r, '0');
        push_char(&mut r, ' ');
        push_char(&mut r, 'B');
        assert(r@ =~= bytes_str(0));
        return r;
    }
    let h: u64 = if bytes < 1024 {
        (bytes * 200 + 1) / 2
    } else if bytes < 0x10_0000 {
        (bytes * 200 / 1024 + 1) / 2
    } else if bytes < 0x4000_0000 {
        (bytes * 200 / 0x10_0000 + 1) / 2
    } else if bytes < 0x100_0000_0000 {
        (bytes * 200 / 0x4000_0000 + 1) / 2
    } else if bytes < 0x4_0000_0000_0000 {
        (bytes * 200 / 0x100_0000_0000 + 1) / 2
    } else {
        ((((bytes as u128) * 200 / 0x4_0000_0000_0000) + 1) / 2) as u64
    };
    assert(h == scaled_hundredths(bytes as int));
    let whole = h / 100;
    let frac = h % 100;
    let mut r = u64_to_string(whole);
    push_char(&mut r, '.');
    if frac < 10 {
        push_char(&mut r, '0');
    }
    let frac_digits = u64_to_string(frac);
    r.append(frac_digits.as_str());
    push_char(&mut r, ' ');
    if bytes < 1024 {
        push_char(&mut r, 'B');
    } else if bytes < 0x10_0000 {
        push_char(&mut r, 'K');
        push_char(&mut r, 'B');
    } else if bytes < 0x4000_0000 {
        push_char(&mut r, 'M');
        push_char(&mut r, 'B');
    } else if bytes < 0x100_0000_0000 {
        push_char(&mut r, 'G');
        push_char(&mut r, 'B');
    } else if bytes < 0x4_0000_0000_0000 {
        push_char(&mut r, 'T');
        push_char(&mut r, 'B');
    } else {
        push_char(&mut r, 'P');
        push_char(&mut r, 'B');
    }
    assert(r@ =~= bytes_str(bytes as int));
    r
}

/// A duration in whole seconds as text: seconds below a minute, minutes
/// and seconds below an hour, hours and minutes beyond.
pub open spec fn duration_str(secs: int) -> Seq<char> {
    if secs < 60 {
        dec_str(secs) + seq!['s']
    } else if secs < 3600 {
        dec_str(secs / 60) + seq!['m', ' '] + dec_str(secs % 60) + seq!['s']
    } else {
        dec_str(secs / 3600) + seq!['h', ' '] + dec_str(secs % 3600 / 60) + seq!['m']
    }
}

/// Format a duration given in whole seconds.
pub fn format_duration(secs: u64) -> (r: String)
    ensures
        r@ == duration_str(secs as int),
{
    if secs < 60 {
        let mut r = u64_to_string(secs);
        push_char(&mut r, 's');
        assert(r@ =~= duration_str(secs as int));
        r
    } else if secs < 3600 {
        let mut r = u64_to_string(secs / 60);
        push_char(&mut r, 'm');
        push_char(&mut r, ' ');
        let rest = u64_to_string(secs % 60);
        r.append(rest.as_str());
        push_char(&mut r, 's');
        assert(r@ =~= duration_str(secs as int));
        r
    } else {
        let mut r = u64_to_string(secs / 3600);
        push_char(&mut r, 'h');
        push_char(&mut r, ' ');
        let rest = u64_to_string(secs % 3600 / 60);
        r.append(rest.as_str());
        push_char(&mut r, 'm');
        assert(r@ =~= duration_str(secs as int));
        r
    }
}

/// A string cut to at most `max` characters, the last three replaced by
/// an ellipsis when it was longer.
pub open spec fn truncate_str(s: Seq<char>, max: int) -> Seq<char> {
    if s.len() <= max {
        s
    } else {
        s.take(
            if max >= 3 {
                max - 3
            } else {
                0
            },
        ) + seq!['.', '.', '.']
    }
}

/// Truncate a string to at most `max_length` characters, marking the cut
/// with an ellipsis.
pub fn truncate_string(text: &str, max_length: usize) -> (r: String)
    ensures
        r@ == truncate_str(text@, max_length as int),
{
    let v = to_chars(text);
    if v.len() <= max_length {
        return chars_to_string(&v);
    }
    let keep = if max_length >= 3 {
        max_length - 3
    } else {
        0
    };
    let mut out: Vec<char> = Vec::new();
    for i in 0..keep
        invariant
            keep <= v@.len(),
            v@ == text@,
            out@ == text@.take(i as int),
    {
        out.push(v[i]);
        assert(out@ =~= text@.take(i + 1));
    }
    out.push('.');
    out.push('.');
    out.push('.');
    assert(out@ =~= truncate_str(text@, max_length as int));
    chars_to_string(&out)
}

/// A progress percentage as text: the share of `total` reached by
/// `current`, in whole percent, capped at 255; `0%` when there is no
/// total.
pub open spec fn percentage_str(current: int, total: int) -> Seq<char> {
    if total == 0 {
        seq!['0', '%']
    } else {
        let p = current * 100 / total;
        dec_str(
            if p > 255 {
                255
            } else {
                p
            },
        ) + seq!['%']
    }
}

/// Format the share of `total` reached by `current`.
pub fn format_percentage(current: u64, total: u64) -> (r: String)
    ensures
        r@ == percentage_str(current as int, total as int),
{
    if total == 0 {
        let mut r = String::new();
        push_char(&mut r, '0');
        push_char(&mut r, '%');
        assert(r@ =~= percentage_str(current as int, 0));
        return r;
    }
    let wide: u128 = (current as u128) * 100 / (total as u128);
    let p: u64 = if wide > 255 {
        255
    } else {
        wide as u64
    };
    let mut r = u64_to_string(p);
    push_char(&mut r, '%');
    assert(r@ =~= percentage_str(current as int, total as int));
    r
}

/// Decimal digits regrouped with a comma before every block of three,
/// scanning from position `i`.
pub open spec fn grouped_from(d: Seq<char>, i: int) -> Seq<char>
    decreases d.len() - i,
{
    if i < 0 || i >= d.len() {
        Seq::empty()
    } else if i > 0 && (d.len() - i) % 3 == 0 {
        seq![','] + seq![d[i]] + grouped_from(d, i + 1)
    } else {
        seq![d[i]] + grouped_from(d, i + 1)
    }
}

/// A count with thousands separators.
pub open spec fn number_str(n: int) -> Seq<char> {
    grouped_from(dec_str(n), 0)
}

/// Format a count with thousands separators.
pub fn format_number(num: usize) -> (r: String)
    ensures
        r@ == number_str(num as int),
{
    let digits = u64_to_string(num as u64);
    let v = to_chars(digits.as_str());
    let mut out: Vec<char> = Vec::new();
    let n = v.len();
    for i in 0..n
        invariant
            n == v@.len(),
            v@ == dec_str(num as int),
            number_str(num as int) == out@ + grouped_from(v@, i as int),
    {
        if i > 0 && (n - i) % 3 == 0 {
            out.push(',');
        }
        out.push(v[i]);
    }
    proof {
        assert(out@ + grouped_from(v@, n as int) =~= out@);
    }
    chars_to_string(&out)
}

/// A compression ratio as text: the compressed share of the original
/// size, in percent with one decimal, or `N/A` when nothing was there
/// to compress.
pub open spec fn ratio_str(original: int, compressed: int) -> Seq<char> {
    if original == 0 {
        seq!['N', '/', 'A']
    } else {
        let tenths = (compressed * 2000 / original + 1) / 2;
        dec_str(tenths / 10) + seq!['.'] + dec_str(tenths % 10) + seq!['%']
    }
}

/// Format the ratio of the compressed to the original size.
pub fn format_compression_ratio(original: u64, compressed: u64) -> (r: String)
    ensures
        r@ == ratio_str(original as int, compressed as int),
{
    if original == 0 {
        let mut r = String::new();
        push_char(&mut r, 'N');
        push_char(&mut r, '/');
        push_char(&mut r, 'A');
        assert(r@ =~= ratio_str(0, compressed as int));
        return r;
    }
    proof {
        let c = compressed as int;
        let o = original as int;
        assert(c * 2000 / o <= c * 2000) by (nonlinear_arith)
            requires
                o >= 1,
                c >= 0,
        ;
    }
    let wide: u128 = (compressed as u128) * 2000 / (original as u128);
    let tenths: u128 = (wide + 1) / 2;
    let mut r = crate::text::u128_to_string(tenths / 10);
    push_char(&mut r, '.');
    let frac: u64 = (tenths % 10) as u64;
    let fd = u64_to_string(frac);
    r.append(fd.as_str());
    push_char(&mut r, '%');
    assert(r@ =~= ratio_str(original as int, compressed as int));
    r
}

} // verus!
