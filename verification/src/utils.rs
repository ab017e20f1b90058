//! Formatting and path helpers: permission bits to `drwxr-xr-x` text,
//! timestamps to `ls -la` style dates, byte counts to human-readable sizes,
//! and relative-to-absolute path resolution.

use vstd::prelude::*;
use vstd::string::*;
use chrono::{Datelike, Local, LocalResult, TimeZone, Timelike, Utc};

verus! {

/// Relies on `FromIterator<char> for String`: the string holds exactly the
/// given characters, in order.
#[verifier::external_body]
fn chars_to_string(v: Vec<char>) -> (s: String)
    ensures
        s@ == v@,
{
    v.into_iter().collect()
}

/// The decimal digit character for `d` (0 through 9).
pub open spec fn spec_digit(d: int) -> char {
    if d == 0 {
        '0'
    } else if d == 1 {
        '1'
    } else if d == 2 {
        '2'
    } else if d == 3 {
        '3'
    } else if d == 4 {
        '4'
    } else if d == 5 {
        '5'
    } else if d == 6 {
        '6'
    } else if d == 7 {
        '7'
    } else if d == 8 {
        '8'
    } else {
        '9'
    }
}

/// The decimal rendering of `n`, without sign or padding.
pub open spec fn spec_dec(n: nat) -> Seq<char>
    decreases n,
{
    if n < 10 {
        seq![spec_digit(n as int)]
    } else {
        spec_dec(n / 10).push(spec_digit((n % 10) as int))
    }
}

fn digit_char(d: u8) -> (c: char)
    requires
        d < 10,
    ensures
        c == spec_digit(d as int),
{
    match d {
        0 => '0',
        1 => '1',
        2 => '2',
        3 => '3',
        4 => '4',
        5 => '5',
        6 => '6',
        7 => '7',
        8 => '8',
        _ => '9',
    }
}

/// Appends the decimal digits of `n` to `v`.
fn push_dec(v: &mut Vec<char>, n: u64)
    ensures
        final(v)@ == old(v)@ + spec_dec(n as nat),
    decreases n,
{
    let ghost v0 = v@;
    if n >= 10 {
        push_dec(v, n / 10);
    }
    v.push(digit_char((n % 10) as u8));
    proof {
        assert(v@ =~= v0 + spec_dec(n as nat));
    }
}

/// Renders `n` in decimal.
pub fn u64_to_dec(n: u64) -> (s: String)
    ensures
        s@ == spec_dec(n as nat),
{
    let mut v: Vec<char> = Vec::new();
    push_dec(&mut v, n);
    chars_to_string(v)
}

/// The `ls -la` style permission string: one file-type character followed
/// by the nine rwx bits, `-` where a bit is clear.
pub open spec fn spec_file_type_char(p: u32) -> char {
    let t = p & 0o170000;
    if t == 0o040000 {
        'd'
    } else if t == 0o120000 {
        'l'
    } else if t == 0o060000 {
        'b'
    } else if t == 0o020000 {
        'c'
    } else if t == 0o010000 {
        'p'
    } else if t == 0o140000 {
        's'
    } else {
        '-'
    }
}

pub open spec fn spec_bit_char(p: u32, bit: u32, ch: char) -> char {
    if p & bit != 0 {
        ch
    } else {
        '-'
    }
}

pub open spec fn spec_permission_str(p: u32) -> Seq<char> {
    seq![
        spec_file_type_char(p),
        spec_bit_char(p, 0o400, 'r'),
        spec_bit_char(p, 0o200, 'w'),
        spec_bit_char(p, 0o100, 'x'),
        spec_bit_char(p, 0o040, 'r'),
        spec_bit_char(p, 0o020, 'w'),
        spec_bit_char(p, 0o010, 'x'),
        spec_bit_char(p, 0o004, 'r'),
        spec_bit_char(p, 0o002, 'w'),
        spec_bit_char(p, 0o001, 'x'),
    ]
}

fn bit_char(p: u32, bit: u32, ch: char) -> (c: char)
    ensures
        c == spec_bit_char(p, bit, ch),
{
    if p & bit != 0 {
        ch
    } else {
        '-'
    }
}

/// Unix permission bits rendered as `drwxr-xr-x`. A mode whose type bits
/// say directory always yields a string starting with `d`.
pub fn permission_str(p: u32) -> (s: String)
    ensures
        s@ == spec_permission_str(p),
        s@.len() == 10,
        p & 0o170000 == 0o040000 ==> s@[0] == 'd',
{
    let t = p & 0o170000;
    let file_type = if t == 0o040000 {
        'd'
    } else if t == 0o120000 {
        'l'
    } else if t == 0o060000 {
        'b'
    } else if t == 0o020000 {
        'c'
    } else if t == 0o010000 {
        'p'
    } else if t == 0o140000 {
        's'
    } else {
        '-'
    };
    let mut v: Vec<char> = Vec::new();
    v.push(file_type);
    v.push(bit_char(p, 0o400, 'r'));
    v.push(bit_char(p, 0o200, 'w'));
    v.push(bit_char(p, 0o100, 'x'));
    v.push(bit_char(p, 0o040, 'r'));
    v.push(bit_char(p, 0o020, 'w'));
    v.push(bit_char(p, 0o010, 'x'));
    v.push(bit_char(p, 0o004, 'r'));
    v.push(bit_char(p, 0o002, 'w'));
    v.push(bit_char(p, 0o001, 'x'));
    proof {
        assert(v@ =~= spec_permission_str(p));
    }
    chars_to_string(v)
}

/// Index of the last occurrence of `c` in `s`, or -1 if absent.
pub open spec fn spec_last_index_of(s: Seq<char>, c: char) -> int
    decreases s.len(),
{
    if s.len() == 0 {
        -1
    } else if s[s.len() - 1] == c {
        s.len() - 1
    } else {
        spec_last_index_of(s.drop_last(), c)
    }
}

proof fn lemma_last_index_of_found(s: Seq<char>, c: char, k: int)
    requires
        0 <= k < s.len(),
        s[k] == c,
        forall|j: int| k < j < s.len() ==> s[j] != c,
    ensures
        spec_last_index_of(s, c) == k,
    decreases s.len(),
{
    if k == s.len() - 1 {
    } else {
        assert(s.drop_last() =~= s.take(s.len() - 1));
        lemma_last_index_of_found(s.drop_last(), c, k);
    }
}

proof fn lemma_last_index_of_absent(s: Seq<char>, c: char)
    requires
        forall|j: int| 0 <= j < s.len() ==> s[j] != c,
    ensures
        spec_last_index_of(s, c) == -1,
    decreases s.len(),
{
    if s.len() > 0 {
        lemma_last_index_of_absent(s.drop_last(), c);
    }
}

/// Index of the last occurrence of `c` in `s`, if any.
pub(crate) fn last_index_of(s: &str, c: char) -> (r: Option<usize>)
    ensures
        r matches Some(k) ==> spec_last_index_of(s@, c) == k && k < s@.len(),
        r is None ==> spec_last_index_of(s@, c) == -1,
{
    let n = s.unicode_len();
    let mut i = n;
    while i > 0
        invariant
            i <= n,
            n == s@.len(),
            forall|j: int| i <= j < s@.len() ==> s@[j] != c,
        decreases i,
    {
        i = i - 1;
        if s.get_char(i) == c {
            proof {
                lemma_last_index_of_found(s@, c, i as int);
            }
            return Some(i);
        }
    }
    proof {
        lemma_last_index_of_absent(s@, c);
    }
    None
}

/// Remote path resolution: an absolute path stands as given; `.` is the
/// current directory; `..` is its parent (the prefix before the last `/`,
/// or the root when there is none or it is empty); anything else is joined
/// onto the current directory with a `/`.
pub open spec fn spec_resolve_path(current: Seq<char>, path: Seq<char>) -> Seq<char> {
    if path.len() > 0 && path[0] == '/' {
        path
    } else if path =~= seq!['.'] {
        current
    } else if path =~= seq!['.', '.'] {
        let j = spec_last_index_of(current, '/');
        if j > 0 {
            current.take(j)
        } else {
            seq!['/']
        }
    } else if current =~= seq!['/'] {
        seq!['/'] + path
    } else {
        current + seq!['/'] + path
    }
}

/// Turns a possibly-relative remote `path` into an absolute one, against
/// the absolute `current` directory.
pub fn resolve_path(current: &str, path: &str) -> (r: String)
    ensures
        r@ == spec_resolve_path(current@, path@),
{
    let plen = path.unicode_len();
    if plen > 0 && path.get_char(0) == '/' {
        return String::from_str(path);
    }
    if plen == 1 && path.get_char(0) == '.' {
        proof {
            assert(path@ =~= seq!['.']);
        }
        return String::from_str(current);
    }
    if plen == 2 && path.get_char(0) == '.' && path.get_char(1) == '.' {
        proof {
            assert(path@ =~= seq!['.', '.']);
            assert(!(path@ =~= seq!['.']));
        }
        let j = last_index_of(current, '/');
        match j {
            Some(k) if k > 0 => {
                return String::from_str(current.substring_char(0, k));
            },
            _ => {
                proof {
                    reveal_strlit("/");
                }
                return String::from_str("/");
            },
        }
    }
    let clen = current.unicode_len();
    if clen == 1 && current.get_char(0) == '/' {
        proof {
            assert(current@ =~= seq!['/']);
        }
        let mut r = String::from_str(current);
        r.append(path);
        proof {
            assert(r@ =~= seq!['/'] + path@);
        }
        return r;
    }
    proof {
        assert(!(current@ =~= seq!['/']));
        assert(!(path@ =~= seq!['.']));
        assert(!(path@ =~= seq!['.', '.']));
    }
    let mut r = String::from_str(current);
    r.append("/");
    r.append(path);
    proof {
        reveal_strlit("/");
        assert(r@ =~= current@ + seq!['/'] + path@);
    }
    r
}

/// Relies on `std::path::Path::is_absolute`; the answer is
/// platform-specific, so nothing is assumed of it.
#[verifier::external_body]
fn path_is_absolute(p: &str) -> bool {
    std::path::Path::new(p).is_absolute()
}

/// Relies on `std::path::Path::join` (adjoins with the platform separator;
/// an absolute `path` replaces `base`) and `to_string_lossy`; nothing is
/// assumed of the resulting text.
#[verifier::external_body]
fn path_join(base: &str, path: &str) -> String {
    std::path::Path::new(base).join(path).to_string_lossy().to_string()
}

/// Turns a possibly-relative local `path` into an absolute one against the
/// `current` local directory, honouring the platform's own notion of
/// absolute paths and separators; both come from `std::path`, so no more
/// exact contract is stated here.
pub fn resolve_local_path(current: &str, path: &str) -> String {
    if path_is_absolute(path) {
        String::from_str(path)
    } else {
        path_join(current, path)
    }
}

/// Local civil-time fields of a Unix timestamp.
#[derive(Clone, Copy, Debug)]
pub struct TimeParts {
    pub year: i32,
    pub month: u32,
    pub day: u32,
    pub hour: u32,
    pub minute: u32,
}

/// The field ranges chrono documents for month, day, hour and minute.
pub open spec fn time_parts_valid(p: TimeParts) -> bool {
    &&& 1 <= p.month <= 12
    &&& 1 <= p.day <= 31
    &&& p.hour < 24
    &&& p.minute < 60
}

/// The timestamps chrono's datetime range admits. The cast to `i64` wraps,
/// so beside the plain upper bound (23:59:59 of the last full year chrono
/// represents) the values whose wrapped image reaches back to chrono's
/// first instant are in range too.
pub open spec fn timestamp_in_chrono_range(ts: u64) -> bool {
    ts <= 8210266876799 || ts >= 18446735739108322816
}

/// Relies on chrono: `Utc.timestamp_opt(ts, 0)` yields a single instant
/// exactly when the wrapped seconds value lies within chrono's datetime
/// range ([`timestamp_in_chrono_range`]) and nothing otherwise,
/// `with_timezone(&Local)` converts it to local civil time, and the
/// `Datelike`/`Timelike` accessors document the ranges stated in
/// [`time_parts_valid`].
#[verifier::external_body]
fn local_time_parts(ts: u64) -> (r: Option<TimeParts>)
    ensures
        r is Some <==> timestamp_in_chrono_range(ts),
        r matches Some(p) ==> time_parts_valid(p),
{
    match Utc.timestamp_opt(ts as i64, 0) {
        LocalResult::Single(utc) => {
            let dt = utc.with_timezone(&Local);
            Some(TimeParts {
                year: dt.year(),
                month: dt.month(),
                day: dt.day(),
                hour: dt.hour(),
                minute: dt.minute(),
            })
        },
        _ => None,
    }
}

/// Relies on chrono: compares the instant of `ts` against `Local::now()`
/// minus `days` days. The answer depends on the clock, so nothing is
/// assumed of it. `TimeDelta::days` panics far outside chrono's range and
/// subtracting a huge delta from `now` overflows, so the bound keeps both
/// well inside it (a century of days reaches back no further than 1926).
#[verifier::external_body]
fn timestamp_after_now_minus_days(ts: u64, days: u64) -> bool
    requires
        days <= 36500,
{
    match Utc.timestamp_opt(ts as i64, 0) {
        LocalResult::Single(utc) => {
            utc.with_timezone(&Local) > Local::now() - chrono::Duration::days(days as i64)
        },
        _ => false,
    }
}

/// Two digits, zero-padded below ten.
pub open spec fn spec_pad2(x: nat) -> Seq<char> {
    if x < 10 {
        seq!['0', spec_digit(x as int)]
    } else {
        spec_dec(x)
    }
}

/// Two columns, space-padded below ten.
pub open spec fn spec_day2(d: nat) -> Seq<char> {
    if d < 10 {
        seq![' ', spec_digit(d as int)]
    } else {
        spec_dec(d)
    }
}

/// A year in decimal, with a leading minus sign when negative.
pub open spec fn spec_year(y: int) -> Seq<char> {
    if y < 0 {
        seq!['-'] + spec_dec((-y) as nat)
    } else {
        spec_dec(y as nat)
    }
}

/// The English three-letter month abbreviation.
pub open spec fn spec_month_name(m: int) -> Seq<char> {
    if m == 1 {
        seq!['J', 'a', 'n']
    } else if m == 2 {
        seq!['F', 'e', 'b']
    } else if m == 3 {
        seq!['M', 'a', 'r']
    } else if m == 4 {
        seq!['A', 'p', 'r']
    } else if m == 5 {
        seq!['M', 'a', 'y']
    } else if m == 6 {
        seq!['J', 'u', 'n']
    } else if m == 7 {
        seq!['J', 'u', 'l']
    } else if m == 8 {
        seq!['A', 'u', 'g']
    } else if m == 9 {
        seq!['S', 'e', 'p']
    } else if m == 10 {
        seq!['O', 'c', 't']
    } else if m == 11 {
        seq!['N', 'o', 'v']
    } else {
        seq!['D', 'e', 'c']
    }
}

/// `ls -la` style date text: `Jun 22 15:30` for a recent timestamp,
/// `Jun 22  2025` otherwise.
pub open spec fn spec_mtime_str(p: TimeParts, recent: bool) -> Seq<char> {
    spec_month_name(p.month as int) + seq![' '] + spec_day2(p.day as nat) + (if recent {
        seq![' '] + spec_pad2(p.hour as nat) + seq![':'] + spec_pad2(p.minute as nat)
    } else {
        seq![' ', ' '] + spec_year(p.year as int)
    })
}

fn push_month(v: &mut Vec<char>, m: u32)
    requires
        1 <= m <= 12,
    ensures
        final(v)@ == old(v)@ + spec_month_name(m as int),
{
    let ghost v0 = v@;
    let (a, b, c) = match m {
        1 => ('J', 'a', 'n'),
        2 => ('F', 'e', 'b'),
        3 => ('M', 'a', 'r'),
        4 => ('A', 'p', 'r'),
        5 => ('M', 'a', 'y'),
        6 => ('J', 'u', 'n'),
        7 => ('J', 'u', 'l'),
        8 => ('A', 'u', 'g'),
        9 => ('S', 'e', 'p'),
        10 => ('O', 'c', 't'),
        11 => ('N', 'o', 'v'),
        _ => ('D', 'e', 'c'),
    };
    v.push(a);
    v.push(b);
    v.push(c);
    proof {
        assert(v@ =~= v0 + spec_month_name(m as int));
    }
}

fn push_pad2(v: &mut Vec<char>, x: u32)
    requires
        x < 100,
    ensures
        final(v)@ == old(v)@ + spec_pad2(x as nat),
{
    let ghost v0 = v@;
    if x < 10 {
        v.push('0');
        v.push(digit_char(x as u8));
        proof {
            assert(v@ =~= v0 + spec_pad2(x as nat));
        }
    } else {
        push_dec(v, x as u64);
    }
}

fn push_day2(v: &mut Vec<char>, d: u32)
    requires
        d < 100,
    ensures
        final(v)@ == old(v)@ + spec_day2(d as nat),
{
    let ghost v0 = v@;
    if d < 10 {
        v.push(' ');
        v.push(digit_char(d as u8));
        proof {
            assert(v@ =~= v0 + spec_day2(d as nat));
        }
    } else {
        push_dec(v, d as u64);
    }
}

fn push_year(v: &mut Vec<char>, y: i32)
    ensures
        final(v)@ == old(v)@ + spec_year(y as int),
{
    let ghost v0 = v@;
    if y < 0 {
        v.push('-');
        let abs = -(y as i64);
        push_dec(v, abs as u64);
        proof {
            assert(v@ =~= v0 + spec_year(y as int));
        }
    } else {
        push_dec(v, y as u64);
    }
}

/// Renders the civil-time fields in `ls -la` style: time of day for recent
/// timestamps, the year otherwise.
pub fn format_mtime(p: &TimeParts, recent: bool) -> (s: String)
    requires
        time_parts_valid(*p),
    ensures
        s@ == spec_mtime_str(*p, recent),
{
    let mut v: Vec<char> = Vec::new();
    push_month(&mut v, p.month);
    v.push(' ');
    push_day2(&mut v, p.day);
    if recent {
        v.push(' ');
        push_pad2(&mut v, p.hour);
        v.push(':');
        push_pad2(&mut v, p.minute);
    } else {
        v.push(' ');
        v.push(' ');
        push_year(&mut v, p.year);
    }
    proof {
        assert(v@ =~= spec_mtime_str(*p, recent));
    }
    chars_to_string(v)
}

/// A Unix timestamp as an `ls -la` style date: `Jun 22 15:30` within the
/// last 180 days, `Jun 22  2025` beyond that, `?` when out of range. Which
/// civil time an in-range timestamp maps to, and whether it counts as
/// recent, depend on the local time zone and the clock; but an in-range
/// timestamp always yields the exact rendering of some valid civil time,
/// and an out-of-range one always yields `?`.
pub fn mtime_str(ts: u64) -> (s: String)
    ensures
        timestamp_in_chrono_range(ts) ==> exists|p: TimeParts, recent: bool|
            time_parts_valid(p) && s@ == spec_mtime_str(p, recent),
        !timestamp_in_chrono_range(ts) ==> s@ == "?"@,
{
    match local_time_parts(ts) {
        Some(p) => {
            let recent = timestamp_after_now_minus_days(ts, 180);
            let s = format_mtime(&p, recent);
            proof {
                assert(time_parts_valid(p) && s@ == spec_mtime_str(p, recent));
            }
            s
        },
        None => String::from_str("?"),
    }
}

pub const KB: u64 = 1024;

pub const MB: u64 = 1024 * 1024;

pub const GB: u64 = 1024 * 1024 * 1024;

/// `bytes / unit` scaled to tenths and rounded to the nearest tenth, ties
/// to even — the rounding a fixed one-decimal rendering performs.
pub open spec fn spec_scaled_tenths(b: nat, unit: nat) -> nat
    recommends
        unit > 0,
{
    let num = b * 10;
    let q = num / unit;
    let r = num % unit;
    if 2 * r > unit || (2 * r == unit && q % 2 == 1) {
        q + 1
    } else {
        q
    }
}

/// One decimal place plus a unit suffix, e.g. `1.5MB`.
pub open spec fn spec_scaled_size(b: nat, unit: nat, uc: char) -> Seq<char> {
    let t = spec_scaled_tenths(b, unit);
    spec_dec(t / 10) + seq!['.', spec_digit((t % 10) as int), uc, 'B']
}

/// Human-readable size: `B` below 1024, otherwise one decimal place of the
/// matching binary unit.
pub open spec fn spec_fmt_size(b: nat) -> Seq<char> {
    if b >= GB {
        spec_scaled_size(b, GB as nat, 'G')
    } else if b >= MB {
        spec_scaled_size(b, MB as nat, 'M')
    } else if b >= KB {
        spec_scaled_size(b, KB as nat, 'K')
    } else {
        spec_dec(b) + seq!['B']
    }
}

fn scaled_tenths(bytes: u64, unit: u64) -> (t: u64)
    requires
        1024 <= unit <= 0x40000000,
    ensures
        t as nat == spec_scaled_tenths(bytes as nat, unit as nat),
{
    let num: u128 = (bytes as u128) * 10;
    let u: u128 = unit as u128;
    let q: u128 = num / u;
    let r: u128 = num % u;
    proof {
        vstd::arithmetic::div_mod::lemma_div_is_ordered_by_denominator(
            num as int,
            1024,
            u as int,
        );
        vstd::arithmetic::div_mod::lemma_div_is_ordered(
            num as int,
            0xFFFFFFFFFFFFFFFFint * 10,
            1024,
        );
    }
    let q64: u64 = q as u64;
    let r64: u64 = r as u64;
    if 2 * r64 > unit || (2 * r64 == unit && q64 % 2 == 1) {
        q64 + 1
    } else {
        q64
    }
}

fn scaled_size(bytes: u64, unit: u64, uc: char) -> (s: String)
    requires
        1024 <= unit <= 0x40000000,
    ensures
        s@ == spec_scaled_size(bytes as nat, unit as nat, uc),
{
    let t = scaled_tenths(bytes, unit);
    let mut v: Vec<char> = Vec::new();
    push_dec(&mut v, t / 10);
    v.push('.');
    v.push(digit_char((t % 10) as u8));
    v.push(uc);
    v.push('B');
    proof {
        assert(v@ =~= spec_scaled_size(bytes as nat, unit as nat, uc));
    }
    chars_to_string(v)
}

/// A byte count in human-readable form: `980B`, `1.5KB`, `2.0MB`, `3.4GB`.
pub fn fmt_size(bytes: u64) -> (s: String)
    ensures
        s@ == spec_fmt_size(bytes as nat),
{
    if bytes >= GB {
        scaled_size(bytes, GB, 'G')
    } else if bytes >= MB {
        scaled_size(bytes, MB, 'M')
    } else if bytes >= KB {
        scaled_size(bytes, KB, 'K')
    } else {
        let mut v: Vec<char> = Vec::new();
        push_dec(&mut v, bytes);
        v.push('B');
        proof {
            assert(v@ =~= spec_fmt_size(bytes as nat));
        }
        chars_to_string(v)
    }
}

/// Appends `v[from..to]` to `out`.
fn push_range(out: &mut Vec<char>, v: &Vec<char>, from: usize, to: usize)
    requires
        from <= to <= v@.len(),
    ensures
        final(out)@ == old(out)@ + v@.subrange(from as int, to as int),
{
    let ghost out0 = out@;
    let mut i = from;
    while i < to
        invariant
            from <= i <= to <= v@.len(),
            out@ == out0 + v@.subrange(from as int, i as int),
        decreases to - i,
    {
        out.push(v[i]);
        i = i + 1;
        proof {
            assert(out@ =~= out0 + v@.subrange(from as int, i as int));
        }
    }
}

/// Digit groups of three, separated by commas, counted from the right.
pub open spec fn spec_comma(digits: Seq<char>) -> Seq<char>
    decreases digits.len(),
{
    if digits.len() <= 3 {
        digits
    } else {
        spec_comma(digits.take(digits.len() - 3)) + seq![','] + digits.skip(digits.len() - 3)
    }
}

fn push_comma(v: &Vec<char>, end: usize, out: &mut Vec<char>)
    requires
        end <= v@.len(),
    ensures
        final(out)@ == old(out)@ + spec_comma(v@.take(end as int)),
    decreases end,
{
    let ghost out0 = out@;
    if end <= 3 {
        push_range(out, v, 0, end);
        proof {
            assert(v@.subrange(0, end as int) =~= v@.take(end as int));
        }
    } else {
        push_comma(v, end - 3, out);
        out.push(',');
        push_range(out, v, end - 3, end);
        proof {
            assert(v@.take(end - 3) =~= v@.take(end as int).take(end as int - 3));
            assert(v@.subrange(end as int - 3, end as int) =~= v@.take(end as int).skip(
                end as int - 3,
            ));
            assert(out@ =~= out0 + spec_comma(v@.take(end as int)));
        }
    }
}

/// A number with thousands separators: 1234567 becomes `1,234,567`.
pub fn fmt_comma(n: u64) -> (s: String)
    ensures
        s@ == spec_comma(spec_dec(n as nat)),
{
    let mut digits: Vec<char> = Vec::new();
    push_dec(&mut digits, n);
    let mut out: Vec<char> = Vec::new();
    let end = digits.len();
    push_comma(&digits, end, &mut out);
    proof {
        assert(digits@.take(end as int) =~= digits@);
    }
    chars_to_string(out)
}

} // verus!
