//! The command-line tool's rules: how sizes, ages, memory limits, statuses and
//! events are written and read, and the decisions of its cleanup, shutdown and
//! run commands.

use vstd::prelude::*;
use vstd::string::*;
use crate::error::json_error_text;
use crate::image::{ImageInfo, full_name_spec};
use crate::text::{
    contains_str, contains_str_spec, decimal, digit_char, digit_str, ends_with, ends_with_spec, parse_unsigned,
    parse_unsigned_spec, starts_with_spec, str_eq, u64_to_string, all_digits, is_digit, lemma_decimal_digits,
    lemma_decimal_parses,
};
use crate::types::{ContainerEventType, ContainerInfo, ContainerInfoView, ContainerStatus};

verus! {

/// `2^k`.
pub open spec fn two_pow(k: nat) -> nat
    decreases k,
{
    if k == 0 { 1 } else { 2 * two_pow((k - 1) as nat) }
}

/// `n / d` rounded to the nearest integer, ties to even.
pub open spec fn div_round_even(n: nat, d: nat) -> nat {
    let q = n / d;
    let r = n % d;
    if 2 * r > d || (2 * r == d && q % 2 == 1) { q + 1 } else { q }
}

/// The number of low bits dropped when `b` is rounded to 53 significant bits,
/// searching from `k`.
pub open spec fn f64_shift_from(b: nat, k: nat, fuel: nat) -> nat
    decreases fuel,
{
    if fuel == 0 || b / two_pow(k) < two_pow(53) {
        k
    } else {
        f64_shift_from(b, k + 1, (fuel - 1) as nat)
    }
}

/// The value of `b as f64`: `b` rounded to 53 significant bits, ties to even.
pub open spec fn f64_value(b: nat) -> nat {
    let k = f64_shift_from(b, 0, 64);
    div_round_even(b, two_pow(k)) * two_pow(k)
}

/// Two decimal digits of `n` (0..=99).
pub open spec fn two_digits(n: nat) -> Seq<char> {
    seq![digit_char((n / 10) as int), digit_char((n % 10) as int)]
}

/// `n / unit` written with two decimals, rounded to the nearest hundredth
/// with ties to even, as `{:.2}` writes the exact quotient.
pub open spec fn fixed2_text(n: nat, unit: nat) -> Seq<char> {
    let c = div_round_even(n * 100, unit);
    decimal(c / 100) + "."@ + two_digits(c % 100)
}

/// How the tool writes a size in bytes: in GB, MB or KB with two decimals
/// when it reaches a unit (the GB value is first converted to a 64-bit float,
/// as the tool does), else in bytes.
pub open spec fn format_bytes_spec(b: nat) -> Seq<char> {
    if b >= 1073741824 {
        fixed2_text(f64_value(b), 1073741824) + "GB"@
    } else if b >= 1048576 {
        fixed2_text(b, 1048576) + "MB"@
    } else if b >= 1024 {
        fixed2_text(b, 1024) + "KB"@
    } else {
        decimal(b) + "B"@
    }
}

/// `n / d` rounded to the nearest integer, ties to even.
fn div_round_even_exec(n: u128, d: u128) -> (r: u128)
    requires
        d > 0,
        n / d + 1 <= u128::MAX,
    ensures
        r == div_round_even(n as nat, d as nat),
{
    let q = n / d;
    let r = n % d;
    if r > d - r || (r == d - r && q % 2 == 1) {
        q + 1
    } else {
        q
    }
}

proof fn lemma_two_pow_values()
    ensures
        two_pow(0) == 1,
        two_pow(11) == 2048,
        two_pow(53) == 9007199254740992,
{
    reveal_with_fuel(two_pow, 54);
}

/// The value of `b as f64`, as an integer.
fn f64_value_exec(b: u64) -> (r: u128)
    ensures
        r == f64_value(b as nat),
        r <= 18446744073709551616,
{
    proof { lemma_two_pow_values(); }
    let mut k: u32 = 0;
    let mut p: u128 = 1;
    let bw = b as u128;
    while bw / p >= 9007199254740992
        invariant
            k <= 11,
            p == two_pow(k as nat),
            bw == b as nat,
            b <= u64::MAX,
            f64_shift_from(b as nat, 0, 64) == f64_shift_from(b as nat, k as nat, (64 - k) as nat),
            two_pow(53) == 9007199254740992,
            two_pow(11) == 2048,
            p <= 2048,
            p >= 1,
        decreases 11 - k,
    {
        if k == 11 {
            assert(bw / 2048 < 9007199254740992) by (nonlinear_arith)
                requires bw <= 18446744073709551615;
            assert(false);
        }
        proof {
            assert(two_pow((k + 1) as nat) == 2 * two_pow(k as nat));
            if k + 1 == 11 {
                assert(two_pow(11) == 2048);
            }
        }
        k = k + 1;
        p = p * 2;
        proof {
            if p > 2048 {
                assert(k <= 11);
                lemma_two_pow_monotone(k as nat, 11);
            }
        }
    }
    proof {
        assert(f64_shift_from(b as nat, k as nat, (64 - k) as nat) == k);
    }
    let q = div_round_even_exec(bw, p);
    proof {
        assert(q <= bw / p + 1);
        assert(q <= 9007199254740992);
        assert(q * p <= 18446744073709551616) by (nonlinear_arith)
            requires q <= 9007199254740992, p <= 2048, p >= 1;
    }
    q * p
}

proof fn lemma_two_pow_monotone(a: nat, b: nat)
    requires
        a <= b,
    ensures
        two_pow(a) <= two_pow(b),
    decreases b - a,
{
    if a < b {
        lemma_two_pow_monotone(a, (b - 1) as nat);
        assert(two_pow(b) == 2 * two_pow((b - 1) as nat));
    }
}

/// Two decimal digits of `n`.
fn two_digit_string(n: u64) -> (s: String)
    requires
        n < 100,
    ensures
        s@ == two_digits(n as nat),
{
    let mut s = String::from_str(digit_str(n / 10));
    s.append(digit_str(n % 10));
    s
}

/// `n / unit` with two decimals.
fn fixed2(n: u128, unit: u128) -> (s: String)
    requires
        unit > 0,
        n <= 18446744073709551616,
        unit >= 1024,
    ensures
        s@ == fixed2_text(n as nat, unit as nat),
{
    let scaled = n * 100;
    proof {
        assert(scaled / unit <= scaled) by (nonlinear_arith) requires unit > 0, scaled >= 0;
    }
    let c = div_round_even_exec(scaled, unit);
    proof {
        assert(c <= scaled / unit + 1);
        assert(scaled / unit <= scaled / 1024) by (nonlinear_arith) requires unit >= 1024, scaled >= 0;
    }
    let whole = (c / 100) as u64;
    let frac = (c % 100) as u64;
    let mut s = u64_to_string(whole);
    s.append(".");
    let f = two_digit_string(frac);
    s.append(f.as_str());
    s
}

/// Writes a size in bytes for people: `512B`, `1.50KB`, `2.00MB`, `1.25GB`.
pub fn format_bytes(bytes: u64) -> (s: String)
    ensures
        s@ == format_bytes_spec(bytes as nat),
{
    if bytes >= 1073741824 {
        let v = f64_value_exec(bytes);
        let mut s = fixed2(v, 1073741824);
        s.append("GB");
        s
    } else if bytes >= 1048576 {
        let mut s = fixed2(bytes as u128, 1048576);
        s.append("MB");
        s
    } else if bytes >= 1024 {
        let mut s = fixed2(bytes as u128, 1024);
        s.append("KB");
        s
    } else {
        let mut s = u64_to_string(bytes);
        s.append("B");
        s
    }
}

/// How the tool writes the age of a timestamp `ts` at time `now`: `N/A` for
/// 0; else the whole number of seconds, minutes, hours, days, 30-day months
/// or 365-day years that have passed (none when `ts` is in the future).
pub open spec fn format_timestamp_spec(ts: u64, now: u64) -> Seq<char> {
    if ts == 0 {
        "N/A"@
    } else {
        let diff: nat = if now >= ts { (now - ts) as nat } else { 0 };
        if diff < 60 {
            decimal(diff) + " seconds ago"@
        } else if diff < 3600 {
            decimal(diff / 60) + " minutes ago"@
        } else if diff < 86400 {
            decimal(diff / 3600) + " hours ago"@
        } else if diff < 2592000 {
            decimal(diff / 86400) + " days ago"@
        } else if diff < 31536000 {
            decimal(diff / 2592000) + " months ago"@
        } else {
            decimal(diff / 31536000) + " years ago"@
        }
    }
}

fn number_then(n: u64, suffix: &str) -> (s: String)
    ensures
        s@ == decimal(n as nat) + suffix@,
{
    let mut s = u64_to_string(n);
    s.append(suffix);
    s
}

/// Writes how long ago `ts` was, seen at time `now` (both in seconds since
/// the epoch).
pub fn format_timestamp_at(ts: u64, now: u64) -> (s: String)
    ensures
        s@ == format_timestamp_spec(ts, now),
{
    if ts == 0 {
        return String::from_str("N/A");
    }
    let diff = now.saturating_sub(ts);
    if diff < 60 {
        number_then(diff, " seconds ago")
    } else if diff < 3600 {
        number_then(diff / 60, " minutes ago")
    } else if diff < 86400 {
        number_then(diff / 3600, " hours ago")
    } else if diff < 2592000 {
        number_then(diff / 86400, " days ago")
    } else if diff < 31536000 {
        number_then(diff / 2592000, " months ago")
    } else {
        number_then(diff / 31536000, " years ago")
    }
}

/// The lowercase form of a string, as `str::to_lowercase` gives it.
pub uninterp spec fn lowercase_spec(s: Seq<char>) -> Seq<char>;

/// Whether every character of `s` is ASCII.
pub open spec fn all_ascii(s: Seq<char>) -> bool {
    forall|i: int| 0 <= i < s.len() ==> (#[trigger] s[i] as u32) < 128
}

/// The ASCII lowercase of a character: `A` to `Z` become `a` to `z`, every
/// other character stays.
pub open spec fn ascii_lower_char(c: char) -> char {
    if 65 <= (c as u32) && (c as u32) <= 90 { ((c as u32) + 32) as char } else { c }
}

/// `s` with each character lowercased as ASCII.
pub open spec fn ascii_lowercase(s: Seq<char>) -> Seq<char> {
    s.map_values(|c: char| ascii_lower_char(c))
}

/// Calls `str::to_lowercase`. The contract claims that the result is a
/// function of the text alone, named `lowercase_spec` (the Unicode lowercase
/// mapping, which the documentation defines by the Unicode tables), and that
/// on ASCII text it maps `A` to `Z` to `a` to `z` and keeps every other
/// character, as those tables do for ASCII and as the documentation of
/// `to_ascii_lowercase` describes `to_lowercase` doing for ASCII characters.
#[verifier::external_body]
fn to_lowercase(s: &str) -> (r: String)
    ensures
        r@ == lowercase_spec(s@),
        all_ascii(s@) ==> r@ == ascii_lowercase(s@),
{
    s.to_lowercase()
}

/// `s` with every trailing repetition of `pat` removed.
pub open spec fn trim_end_spec(s: Seq<char>, pat: Seq<char>) -> Seq<char>
    decreases s.len(),
{
    if pat.len() > 0 && ends_with_spec(s, pat) {
        trim_end_spec(s.take(s.len() - pat.len()), pat)
    } else {
        s
    }
}

/// Removes every trailing repetition of `pat` from `s`.
fn trim_end(s: &str, pat: &str) -> (r: String)
    requires
        pat@.len() > 0,
    ensures
        r@ == trim_end_spec(s@, pat@),
{
    let mut cur = String::from_str(s);
    let m = pat.unicode_len();
    loop
        invariant
            m == pat@.len(),
            m > 0,
            trim_end_spec(cur@, pat@) == trim_end_spec(s@, pat@),
        decreases cur@.len(),
    {
        if !ends_with(cur.as_str(), pat) {
            return cur;
        }
        let n = cur.as_str().unicode_len();
        let next = String::from_str(cur.as_str().substring_char(0, n - m));
        proof {
            assert(next@ =~= cur@.take(cur@.len() - pat@.len()));
        }
        cur = next;
    }
}

/// The number part and the multiplier of a lowercase memory size: a `g` or
/// `gb` suffix means GiB, `m` or `mb` MiB, `k` or `kb` KiB (every trailing
/// repetition of the suffix is dropped); no suffix means bytes.
pub open spec fn memory_parts(l: Seq<char>) -> (Seq<char>, nat) {
    if ends_with_spec(l, "g"@) || ends_with_spec(l, "gb"@) {
        (trim_end_spec(trim_end_spec(l, "gb"@), "g"@), 1073741824)
    } else if ends_with_spec(l, "m"@) || ends_with_spec(l, "mb"@) {
        (trim_end_spec(trim_end_spec(l, "mb"@), "m"@), 1048576)
    } else if ends_with_spec(l, "k"@) || ends_with_spec(l, "kb"@) {
        (trim_end_spec(trim_end_spec(l, "kb"@), "k"@), 1024)
    } else {
        (l, 1)
    }
}

/// The number of bytes a lowercase memory size stands for (0 when its number
/// part does not parse).
pub open spec fn lower_memory_value(l: Seq<char>) -> nat {
    let (num, mult) = memory_parts(l);
    match parse_unsigned_spec(num, u64::MAX as nat) {
        Some(v) => v * mult,
        None => 0,
    }
}

/// The number of bytes a memory size such as `512m` or `1g` stands for (0 when
/// its number part does not parse); the suffix is read in any case. ASCII
/// text is lowercased as ASCII, other text by the Unicode lowercase mapping.
pub open spec fn memory_value(s: Seq<char>) -> nat {
    if all_ascii(s) {
        lower_memory_value(ascii_lowercase(s))
    } else {
        lower_memory_value(lowercase_spec(s))
    }
}

/// Whether `l` ends with a pattern of one or two characters, character by
/// character.
proof fn lemma_ends_with_short(l: Seq<char>, p: Seq<char>)
    requires
        1 <= p.len() <= 2,
        p.len() <= l.len(),
    ensures
        ends_with_spec(l, p) <==> (l[l.len() - 1] == p[p.len() - 1] && (p.len() == 2 ==> l[l.len() - 2] == p[0])),
{
    let t = l.subrange(l.len() - p.len(), l.len() as int);
    if ends_with_spec(l, p) {
        assert(t[p.len() - 1] == p[p.len() - 1]);
        if p.len() == 2 {
            assert(t[0] == p[0]);
        }
    }
    if l[l.len() - 1] == p[p.len() - 1] && (p.len() == 2 ==> l[l.len() - 2] == p[0]) {
        assert(t =~= p);
    }
}

/// Removing a pattern that ends in a letter from the end of digits leaves
/// them as they are.
proof fn lemma_trim_end_digits(d: Seq<char>, pat: Seq<char>)
    requires
        d.len() > 0,
        all_digits(d),
        1 <= pat.len() <= 2,
        !is_digit(pat[pat.len() - 1]),
    ensures
        trim_end_spec(d, pat) == d,
{
    if pat.len() <= d.len() {
        lemma_ends_with_short(d, pat);
        assert(is_digit(d[d.len() - 1]));
    }
}

/// Removing `p` from the end of digits followed by `s`: what is left of the
/// digits when `s` is `p`, the text unchanged when it does not end with `p`.
proof fn lemma_trim_after_digits(d: Seq<char>, s: Seq<char>, p: Seq<char>)
    requires
        d.len() > 0,
        all_digits(d),
        1 <= p.len() <= 2,
        !is_digit(p[p.len() - 1]),
    ensures
        s == p ==> trim_end_spec(d + s, p) == d,
        !ends_with_spec(d + s, p) ==> trim_end_spec(d + s, p) == d + s,
{
    let l = d + s;
    if s == p {
        assert(l.subrange(l.len() - p.len(), l.len() as int) =~= p);
        assert(l.take(l.len() - p.len()) =~= d);
        lemma_trim_end_digits(d, p);
    }
}

/// The number part and multiplier of digits followed by a lowercase unit.
proof fn lemma_unit_parts(d: Seq<char>, s: Seq<char>)
    requires
        d.len() > 0,
        all_digits(d),
        s == "g"@ || s == "gb"@ || s == "m"@ || s == "mb"@ || s == "k"@ || s == "kb"@ || s.len() == 0,
    ensures
        (s == "g"@ || s == "gb"@) ==> memory_parts(d + s) == (d, 1073741824nat),
        (s == "m"@ || s == "mb"@) ==> memory_parts(d + s) == (d, 1048576nat),
        (s == "k"@ || s == "kb"@) ==> memory_parts(d + s) == (d, 1024nat),
        s.len() == 0 ==> memory_parts(d + s) == (d, 1nat),
{
    reveal_strlit("g");
    reveal_strlit("gb");
    reveal_strlit("m");
    reveal_strlit("mb");
    reveal_strlit("k");
    reveal_strlit("kb");
    let l = d + s;
    assert(is_digit(d[d.len() - 1]));
    assert(l[d.len() - 1] == d[d.len() - 1]);
    if s.len() >= 1 {
        assert(l[l.len() - 1] == s[s.len() - 1]);
    }
    if s.len() == 2 {
        assert(l[l.len() - 2] == s[0]);
    }
    lemma_ends_with_short(l, "g"@);
    lemma_ends_with_short(l, "m"@);
    lemma_ends_with_short(l, "k"@);
    if l.len() >= 2 {
        lemma_ends_with_short(l, "gb"@);
        lemma_ends_with_short(l, "mb"@);
        lemma_ends_with_short(l, "kb"@);
    }
    lemma_trim_after_digits(d, s, "gb"@);
    lemma_trim_after_digits(d, s, "mb"@);
    lemma_trim_after_digits(d, s, "kb"@);
    lemma_trim_after_digits(d, s, "g"@);
    lemma_trim_after_digits(d, s, "m"@);
    lemma_trim_after_digits(d, s, "k"@);
    lemma_trim_end_digits(d, "g"@);
    lemma_trim_end_digits(d, "m"@);
    lemma_trim_end_digits(d, "k"@);
    if s.len() == 0 {
        assert(l =~= d);
    }
}

/// Law: a memory size written as a decimal number followed by a unit in any
/// case (`g` or `gb`, `m` or `mb`, `k` or `kb`) stands for that many GiB, MiB
/// or KiB; the number alone stands for that many bytes.
pub proof fn law_memory_size_units(n: nat, suffix: Seq<char>)
    requires
        n <= u64::MAX,
    ensures
        memory_value(decimal(n)) == n,
        (ascii_lowercase(suffix) == "g"@ || ascii_lowercase(suffix) == "gb"@)
            ==> memory_value(decimal(n) + suffix) == n * 1073741824,
        (ascii_lowercase(suffix) == "m"@ || ascii_lowercase(suffix) == "mb"@)
            ==> memory_value(decimal(n) + suffix) == n * 1048576,
        (ascii_lowercase(suffix) == "k"@ || ascii_lowercase(suffix) == "kb"@)
            ==> memory_value(decimal(n) + suffix) == n * 1024,
{
    reveal_strlit("g");
    reveal_strlit("gb");
    reveal_strlit("m");
    reveal_strlit("mb");
    reveal_strlit("k");
    reveal_strlit("kb");
    let d = decimal(n);
    lemma_decimal_digits(n);
    lemma_decimal_parses(n, u64::MAX as nat);
    assert forall|i: int| 0 <= i < d.len() implies (#[trigger] d[i] as u32) < 128 && ascii_lower_char(d[i]) == d[i] by {
        assert(is_digit(d[i]));
    }
    assert(all_ascii(d));
    assert(ascii_lowercase(d) =~= d);
    lemma_unit_parts(d, Seq::<char>::empty());
    assert(d + Seq::<char>::empty() =~= d);
    assert(memory_parts(d) == (d, 1nat));
    assert(parse_unsigned_spec(d, u64::MAX as nat) == Some(n));
    assert(memory_parts(d).0 == d && memory_parts(d).1 == 1);
    assert(lower_memory_value(d) == n * 1);
    assert(memory_value(d) == lower_memory_value(ascii_lowercase(d)));
    let s = ascii_lowercase(suffix);
    if s == "g"@ || s == "gb"@ || s == "m"@ || s == "mb"@ || s == "k"@ || s == "kb"@ {
        let l = d + suffix;
        assert forall|i: int| 0 <= i < suffix.len() implies (#[trigger] suffix[i] as u32) < 128 by {
            assert(s[i] == ascii_lower_char(suffix[i]));
        }
        assert forall|i: int| 0 <= i < l.len() implies (#[trigger] l[i] as u32) < 128 by {
            if i < d.len() {
                assert(l[i] == d[i]);
            } else {
                assert(l[i] == suffix[i - d.len()]);
            }
        }
        assert(ascii_lowercase(l) =~= d + s);
        lemma_unit_parts(d, s);
    }
}

/// Reads a lowercase memory size such as `512m`, `1g` or `1024` as a number of
/// bytes (a size whose number does not parse counts as 0), or gives nothing
/// when that number does not fit in `u64`.
pub fn memory_bytes_lower(l: &str) -> (r: Option<u64>)
    ensures
        lower_memory_value(l@) <= u64::MAX ==> r == Some(lower_memory_value(l@) as u64),
        lower_memory_value(l@) > u64::MAX ==> r is None,
{
    proof {
        reveal_strlit("g");
        reveal_strlit("gb");
        reveal_strlit("m");
        reveal_strlit("mb");
        reveal_strlit("k");
        reveal_strlit("kb");
    }
    let (num, mult): (String, u64) = if ends_with(l, "g") || ends_with(l, "gb") {
        let t = trim_end(l, "gb");
        (trim_end(t.as_str(), "g"), 1073741824)
    } else if ends_with(l, "m") || ends_with(l, "mb") {
        let t = trim_end(l, "mb");
        (trim_end(t.as_str(), "m"), 1048576)
    } else if ends_with(l, "k") || ends_with(l, "kb") {
        let t = trim_end(l, "kb");
        (trim_end(t.as_str(), "k"), 1024)
    } else {
        (String::from_str(l), 1)
    };
    proof {
        assert((num@, mult as nat) == memory_parts(l@));
    }
    let v = match parse_unsigned(num.as_str(), u64::MAX) {
        Some(v) => v,
        None => 0,
    };
    if v > u64::MAX / mult {
        proof {
            assert(v * mult > u64::MAX) by (nonlinear_arith) requires v > u64::MAX / mult, mult > 0;
        }
        return None;
    }
    proof {
        assert(v * mult <= u64::MAX) by (nonlinear_arith) requires v <= u64::MAX / mult, mult > 0;
    }
    Some(v * mult)
}

/// Reads a memory size such as `512m`, `1g` or `1024` as a number of bytes;
/// a size whose number does not parse counts as 0.
pub fn parse_memory(s: &str) -> (r: u64)
    requires
        memory_value(s@) <= u64::MAX,
    ensures
        r == memory_value(s@),
{
    let l = to_lowercase(s);
    match memory_bytes_lower(l.as_str()) {
        Some(v) => v,
        None => 0,
    }
}

/// Reads a memory size, or gives nothing when the number of bytes does not fit
/// in `u64`.
pub fn try_parse_memory(s: &str) -> (r: Option<u64>)
    ensures
        memory_value(s@) <= u64::MAX ==> r == Some(memory_value(s@) as u64),
        memory_value(s@) > u64::MAX ==> r is None,
{
    let l = to_lowercase(s);
    match memory_bytes_lower(l.as_str()) {
        Some(_) => Some(parse_memory(s)),
        None => None,
    }
}

/// A way the tool colours a word on a terminal.
#[derive(Clone, Copy, Debug, PartialEq, Eq, Structural)]
pub enum Paint {
    Green,
    Yellow,
    Red,
    Blue,
    Dimmed,
    BoldRed,
}

/// The ANSI sequence that starts a painted word.
pub open spec fn ansi_open(p: Paint) -> Seq<char> {
    match p {
        Paint::Green => "\x1B[32m"@,
        Paint::Yellow => "\x1B[33m"@,
        Paint::Red => "\x1B[31m"@,
        Paint::Blue => "\x1B[34m"@,
        Paint::Dimmed => "\x1B[2m"@,
        Paint::BoldRed => "\x1B[1;31m"@,
    }
}

/// How a painted word is written: the word itself when colours are off, or
/// the word between the paint's opening sequence and the reset sequence.
pub open spec fn painted(word: Seq<char>, p: Paint, s: Seq<char>) -> bool {
    s == word || s == ansi_open(p) + word + "\x1B[0m"@
}

/// Paints a word with `colored` and writes it out (`ColoredString::to_string`).
/// Whether colours are on is decided by `colored` from the environment and
/// the terminal, so the contract claims only what holds either way: the word
/// alone, or the word between the paint's ANSI sequence and the reset
/// sequence (a word without an escape character is not rewritten).
#[verifier::external_body]
fn paint(word: &str, p: Paint) -> (s: String)
    requires
        forall|i: int| 0 <= i < word@.len() ==> word@[i] != '\x1B',
    ensures
        painted(word@, p, s@),
{
    match p {
        Paint::Green => colored::Colorize::green(word).to_string(),
        Paint::Yellow => colored::Colorize::yellow(word).to_string(),
        Paint::Red => colored::Colorize::red(word).to_string(),
        Paint::Blue => colored::Colorize::blue(word).to_string(),
        Paint::Dimmed => colored::Colorize::dimmed(word).to_string(),
        Paint::BoldRed => colored::Colorize::bold(colored::Colorize::red(word)).to_string(),
    }
}

/// The word and paint for a container status: Running green, Created yellow,
/// Stopped dimmed.
pub open spec fn status_paint(s: ContainerStatus) -> (Seq<char>, Paint) {
    match s {
        ContainerStatus::Running => ("Running"@, Paint::Green),
        ContainerStatus::Created => ("Created"@, Paint::Yellow),
        ContainerStatus::Stopped => ("Stopped"@, Paint::Dimmed),
    }
}

/// Writes a container status for a terminal.
pub fn format_status(status: ContainerStatus) -> (s: String)
    ensures
        painted(status_paint(status).0, status_paint(status).1, s@),
{
    proof {
        reveal_strlit("Running");
        reveal_strlit("Created");
        reveal_strlit("Stopped");
    }
    match status {
        ContainerStatus::Running => paint("Running", Paint::Green),
        ContainerStatus::Created => paint("Created", Paint::Yellow),
        ContainerStatus::Stopped => paint("Stopped", Paint::Dimmed),
    }
}

/// The word and paint for an event type.
pub open spec fn event_paint(t: ContainerEventType) -> (Seq<char>, Paint) {
    match t {
        ContainerEventType::Create => ("create"@, Paint::Green),
        ContainerEventType::Start => ("start"@, Paint::Green),
        ContainerEventType::Stop => ("stop"@, Paint::Yellow),
        ContainerEventType::Kill => ("kill"@, Paint::Red),
        ContainerEventType::Die => ("die"@, Paint::Red),
        ContainerEventType::Delete => ("delete"@, Paint::Dimmed),
        ContainerEventType::Pause => ("pause"@, Paint::Yellow),
        ContainerEventType::Unpause => ("unpause"@, Paint::Green),
        ContainerEventType::HealthOk => ("health_ok"@, Paint::Green),
        ContainerEventType::HealthFail => ("health_fail"@, Paint::Red),
        ContainerEventType::Oom => ("oom"@, Paint::BoldRed),
        ContainerEventType::ExecStart => ("exec_start"@, Paint::Blue),
        ContainerEventType::ExecDie => ("exec_die"@, Paint::Blue),
    }
}

/// Writes an event type for a terminal.
pub fn format_event_type(t: ContainerEventType) -> (s: String)
    ensures
        painted(event_paint(t).0, event_paint(t).1, s@),
{
    proof {
        reveal_strlit("create");
        reveal_strlit("start");
        reveal_strlit("stop");
        reveal_strlit("kill");
        reveal_strlit("die");
        reveal_strlit("delete");
        reveal_strlit("pause");
        reveal_strlit("unpause");
        reveal_strlit("health_ok");
        reveal_strlit("health_fail");
        reveal_strlit("oom");
        reveal_strlit("exec_start");
        reveal_strlit("exec_die");
    }
    match t {
        ContainerEventType::Create => paint("create", Paint::Green),
        ContainerEventType::Start => paint("start", Paint::Green),
        ContainerEventType::Stop => paint("stop", Paint::Yellow),
        ContainerEventType::Kill => paint("kill", Paint::Red),
        ContainerEventType::Die => paint("die", Paint::Red),
        ContainerEventType::Delete => paint("delete", Paint::Dimmed),
        ContainerEventType::Pause => paint("pause", Paint::Yellow),
        ContainerEventType::Unpause => paint("unpause", Paint::Green),
        ContainerEventType::HealthOk => paint("health_ok", Paint::Green),
        ContainerEventType::HealthFail => paint("health_fail", Paint::Red),
        ContainerEventType::Oom => paint("oom", Paint::BoldRed),
        ContainerEventType::ExecStart => paint("exec_start", Paint::Blue),
        ContainerEventType::ExecDie => paint("exec_die", Paint::Blue),
    }
}

/// What the tool does on an interrupt.
#[derive(Clone, Copy, Debug, PartialEq, Eq, Structural)]
pub enum InterruptAction {
    /// Ask for a graceful shutdown (and give up after a grace period).
    BeginShutdown,
    /// Exit at once with the given status.
    ExitNow(i32),
}

/// The action for an interrupt, given how many interrupts came before it: the
/// first asks for a graceful shutdown, any later one exits at once with status
/// 130 (128 + SIGINT).
pub fn on_interrupt(previous: u32) -> (a: InterruptAction)
    ensures
        previous == 0 ==> a == InterruptAction::BeginShutdown,
        previous > 0 ==> a == InterruptAction::ExitNow(130),
{
    if previous == 0 {
        InterruptAction::BeginShutdown
    } else {
        InterruptAction::ExitNow(130)
    }
}

/// Whether the cleanup command removes a container: with `--orphaned` only
/// orphaned ones, with `--stopped` only stopped ones, by default both.
pub open spec fn should_clean_spec(orphaned_flag: bool, stopped_flag: bool, status: ContainerStatus, orphaned: bool) -> bool {
    if orphaned_flag {
        orphaned
    } else if stopped_flag {
        status == ContainerStatus::Stopped
    } else {
        status == ContainerStatus::Stopped || orphaned
    }
}

/// Whether the cleanup command removes a container with the given status;
/// `orphaned` says whether its process is gone.
pub fn should_clean(orphaned_flag: bool, stopped_flag: bool, status: ContainerStatus, orphaned: bool) -> (b: bool)
    ensures
        b == should_clean_spec(orphaned_flag, stopped_flag, status, orphaned),
{
    if orphaned_flag {
        orphaned
    } else if stopped_flag {
        status == ContainerStatus::Stopped
    } else {
        status == ContainerStatus::Stopped || orphaned
    }
}

/// The running-container predicate.
pub open spec fn running_pred() -> spec_fn(ContainerInfoView) -> bool {
    |c: ContainerInfoView| c.status == ContainerStatus::Running
}

/// The containers the list command shows.
pub fn visible_containers(list: Vec<ContainerInfo>, all: bool) -> (r: Vec<ContainerInfo>)
    ensures
        all ==> r@.map_values(|c: ContainerInfo| c@) == list@.map_values(|c: ContainerInfo| c@),
        !all ==> r@.map_values(|c: ContainerInfo| c@) == list@.map_values(|c: ContainerInfo| c@).filter(running_pred()),
{
    if all {
        return list;
    }
    let ghost m = list@.map_values(|c: ContainerInfo| c@);
    let mut r: Vec<ContainerInfo> = Vec::new();
    let mut i: usize = 0;
    proof {
        reveal(Seq::filter);
        assert(m.take(0) =~= Seq::<ContainerInfoView>::empty());
        assert(r@.map_values(|c: ContainerInfo| c@) =~= m.take(0).filter(running_pred()));
    }
    while i < list.len()
        invariant
            i <= list@.len(),
            m == list@.map_values(|c: ContainerInfo| c@),
            r@.map_values(|c: ContainerInfo| c@) == m.take(i as int).filter(running_pred()),
        decreases list@.len() - i,
    {
        proof {
            assert(m.take(i + 1) =~= m.take(i as int).push(m[i as int]));
            m.take(i as int).lemma_filter_push(m[i as int], running_pred());
        }
        if list[i].status == ContainerStatus::Running {
            let ghost prev = r@;
            r.push(list[i].duplicate());
            proof {
                assert(r@.map_values(|c: ContainerInfo| c@) =~= prev.map_values(|c: ContainerInfo| c@).push(m[i as int]));
            }
        }
        i = i + 1;
    }
    proof {
        assert(m.take(i as int) =~= m);
    }
    r
}

/// An entry of the runtime's state file, as far as it could be read: a field
/// that is absent or of another JSON type is `None`.
pub struct PersistedContainer {
    pub id: Option<String>,
    pub status: Option<String>,
    pub pid: Option<i64>,
}

impl View for PersistedContainer {
    type V = (Option<Seq<char>>, Option<Seq<char>>, Option<i64>);

    /// The entry's id, status and process id, the texts as sequences.
    open spec fn view(&self) -> Self::V {
        (
            match self.id { Some(x) => Some(x@), None => None },
            match self.status { Some(x) => Some(x@), None => None },
            self.pid,
        )
    }
}

/// The views of state file entries.
pub open spec fn entries_view(entries: Seq<PersistedContainer>) -> Seq<(Option<Seq<char>>, Option<Seq<char>>, Option<i64>)> {
    entries.map_values(|e: PersistedContainer| e@)
}

/// Whether a persisted status text means running (`Running` or `running`).
pub open spec fn persisted_running_text(status: Option<Seq<char>>) -> bool {
    match status {
        Some(s) => s == "Running"@ || s == "running"@,
        None => false,
    }
}

/// Whether a persisted status means running (`Running` or `running`).
pub open spec fn persisted_running(status: Option<String>) -> bool {
    match status {
        Some(s) => persisted_running_text(Some(s@)),
        None => false,
    }
}

fn is_persisted_running(status: &Option<String>) -> (b: bool)
    ensures
        b == persisted_running(*status),
{
    match status {
        Some(x) => str_eq(x.as_str(), "Running") || str_eq(x.as_str(), "running"),
        None => false,
    }
}

/// What deciding whether a container is orphaned needs next.
#[derive(Clone, Copy, Debug, PartialEq, Eq, Structural)]
pub enum OrphanProbe {
    /// The container is not orphaned.
    NotOrphaned,
    /// The container is orphaned exactly when no process has this id.
    CheckProcess(i64),
}

/// The decision on the entries `entries[i..]` for the container `id`: the first
/// entry with this id that does not run means not orphaned; one that runs with
/// a positive process id means checking that process; other entries are
/// passed over.
pub open spec fn orphan_probe_from(
    entries: Seq<(Option<Seq<char>>, Option<Seq<char>>, Option<i64>)>,
    id: Seq<char>,
    i: int,
) -> OrphanProbe
    decreases entries.len() - i,
{
    if i >= entries.len() || i < 0 {
        OrphanProbe::NotOrphaned
    } else {
        let e = entries[i];
        if e.0 matches Some(x) && x == id {
            if !persisted_running_text(e.1) {
                OrphanProbe::NotOrphaned
            } else if e.2 matches Some(p) && p > 0 {
                OrphanProbe::CheckProcess(e.2->0)
            } else {
                orphan_probe_from(entries, id, i + 1)
            }
        } else {
            orphan_probe_from(entries, id, i + 1)
        }
    }
}

/// Whether the container `id` may be orphaned according to the state file:
/// whether it is, or which process decides it.
pub fn orphan_probe(entries: &Vec<PersistedContainer>, id: &str) -> (r: OrphanProbe)
    ensures
        r == orphan_probe_from(entries_view(entries@), id@, 0),
{
    let mut i: usize = 0;
    while i < entries.len()
        invariant
            i <= entries@.len(),
            orphan_probe_from(entries_view(entries@), id@, 0) == orphan_probe_from(entries_view(entries@), id@, i as int),
        decreases entries@.len() - i,
    {
        let e = &entries[i];
        let matches = match &e.id {
            Some(x) => str_eq(x.as_str(), id),
            None => false,
        };
        if matches {
            if !is_persisted_running(&e.status) {
                return OrphanProbe::NotOrphaned;
            }
            match e.pid {
                Some(p) => if p > 0 {
                    return OrphanProbe::CheckProcess(p);
                },
                None => {},
            }
        }
        i = i + 1;
    }
    OrphanProbe::NotOrphaned
}

/// What the JSON text of a state file gives: for each item of its top-level
/// array, the `id` and `status` strings and the `pid` integer (each `None`
/// when absent or of another JSON type); or nothing when the text is not a
/// JSON array.
pub uninterp spec fn state_file_entries(text: Seq<char>) -> Option<Seq<(Option<Seq<char>>, Option<Seq<char>>, Option<i64>)>>;

/// Calls `serde_json::from_str` into a `Vec<serde_json::Value>` and reads each
/// item's fields with `Value::get`, `as_str` and `as_i64`. The contract claims
/// that the outcome is a function of the text alone, named
/// `state_file_entries`: the entries read on success, nothing when serde_json
/// refuses the text.
#[verifier::external_body]
fn parse_state_file(text: &str) -> (r: Result<Vec<PersistedContainer>, serde_json::Error>)
    ensures
        r matches Ok(es) ==> state_file_entries(text@) == Some(entries_view(es@)),
        r is Err ==> state_file_entries(text@) is None,
{
    let values: Vec<serde_json::Value> = serde_json::from_str(text)?;
    Ok(values
        .iter()
        .map(|v| PersistedContainer {
            id: v.get("id").and_then(|s| s.as_str()).map(|s| s.to_string()),
            status: v.get("status").and_then(|s| s.as_str()).map(|s| s.to_string()),
            pid: v.get("pid").and_then(|p| p.as_i64()),
        })
        .collect())
}

/// The entries of a state file that holds `text`, or, for a text that is not
/// a JSON array, a message that starts `Failed to parse state file: ` (then
/// the parser's message).
pub fn state_file_from_text(text: &str) -> (r: Result<Vec<PersistedContainer>, String>)
    ensures
        match state_file_entries(text@) {
            Some(es) => r matches Ok(v) && entries_view(v@) == es,
            None => r matches Err(m) && starts_with_spec(m@, "Failed to parse state file: "@),
        },
{
    match parse_state_file(text) {
        Ok(v) => Ok(v),
        Err(e) => {
            let mut m = String::from_str("Failed to parse state file: ");
            let ghost prefix = m@;
            let t = json_error_text(&e);
            m.append(t.as_str());
            proof {
                reveal_strlit("Failed to parse state file: ");
                assert(m@.subrange(0, prefix.len() as int) =~= prefix);
            }
            Err(m)
        },
    }
}

/// Whether the container `id` may be orphaned according to a state file that
/// holds `text`: a text that is not a JSON array means not orphaned.
pub fn orphan_probe_text(text: &str, id: &str) -> (r: OrphanProbe)
    ensures
        match state_file_entries(text@) {
            Some(es) => r == orphan_probe_from(es, id@, 0),
            None => r == OrphanProbe::NotOrphaned,
        },
{
    match parse_state_file(text) {
        Ok(entries) => orphan_probe(&entries, id),
        Err(_) => OrphanProbe::NotOrphaned,
    }
}

/// The signal target of an entry: its process id when positive.
pub open spec fn signal_target(pid: Option<i64>) -> Option<i64> {
    match pid {
        Some(p) => if p > 0 { Some(p) } else { None },
        None => None,
    }
}

/// What an emergency cleanup does, in order: for each entry with an id and a
/// running status, it names the container and signals its process when the
/// entry has a positive process id.
pub open spec fn emergency_targets_spec(entries: Seq<PersistedContainer>) -> Seq<(Seq<char>, Option<i64>)>
    decreases entries.len(),
{
    if entries.len() == 0 {
        Seq::empty()
    } else {
        let r = emergency_targets_spec(entries.drop_last());
        let e = entries.last();
        if persisted_running(e.status) && e.id is Some {
            r.push((e.id->0@, signal_target(e.pid)))
        } else {
            r
        }
    }
}

/// The containers an emergency cleanup stops, each with the process it sends
/// SIGTERM to, if any.
pub fn emergency_targets(entries: &Vec<PersistedContainer>) -> (r: Vec<(String, Option<i64>)>)
    ensures
        r@.map_values(|t: (String, Option<i64>)| (t.0@, t.1)) == emergency_targets_spec(entries@),
{
    let mut r: Vec<(String, Option<i64>)> = Vec::new();
    let mut i: usize = 0;
    proof {
        assert(entries@.take(0) =~= Seq::<PersistedContainer>::empty());
        assert(r@.map_values(|t: (String, Option<i64>)| (t.0@, t.1)) =~= Seq::<(Seq<char>, Option<i64>)>::empty());
    }
    while i < entries.len()
        invariant
            i <= entries@.len(),
            r@.map_values(|t: (String, Option<i64>)| (t.0@, t.1)) == emergency_targets_spec(entries@.take(i as int)),
        decreases entries@.len() - i,
    {
        proof {
            assert(entries@.take(i + 1).drop_last() =~= entries@.take(i as int));
            assert(entries@.take(i + 1).last() == entries@[i as int]);
        }
        let e = &entries[i];
        if is_persisted_running(&e.status) {
            if let Some(id) = &e.id {
                let target = match e.pid {
                    Some(p) => if p > 0 {
                        Some(p)
                    } else {
                        None
                    },
                    None => None,
                };
                let ghost prev = r@;
                r.push((id.clone(), target));
                proof {
                    assert(r@.map_values(|t: (String, Option<i64>)| (t.0@, t.1)) =~= prev.map_values(
                        |t: (String, Option<i64>)| (t.0@, t.1),
                    ).push((id@, signal_target(e.pid))));
                }
            }
        }
        i = i + 1;
    }
    proof {
        assert(entries@.take(i as int) =~= entries@);
    }
    r
}

/// What recovery does with one entry of the state file.
#[derive(Clone, Copy, Debug, PartialEq, Eq, Structural)]
pub enum RecoverStep {
    /// The entry has no id; it is passed over.
    Skip,
    /// The runtime tracks the container already.
    AlreadyTracked,
    /// The entry is orphaned if this process is alive, stale otherwise.
    CheckProcess(i64),
    /// The entry is stale.
    Stale,
}

/// What recovery does with an entry; `known` says whether the runtime knows
/// a container with the entry's id.
pub fn recover_step(entry: &PersistedContainer, known: bool) -> (r: RecoverStep)
    ensures
        entry.id is None ==> r == RecoverStep::Skip,
        entry.id is Some && known ==> r == RecoverStep::AlreadyTracked,
        entry.id is Some && !known ==> r == (if entry.pid matches Some(p) && p > 0 {
            RecoverStep::CheckProcess(entry.pid->0)
        } else {
            RecoverStep::Stale
        }),
{
    if entry.id.is_none() {
        return RecoverStep::Skip;
    }
    if known {
        return RecoverStep::AlreadyTracked;
    }
    match entry.pid {
        Some(p) => if p > 0 {
            RecoverStep::CheckProcess(p)
        } else {
            RecoverStep::Stale
        },
        None => RecoverStep::Stale,
    }
}

/// Whether an image answers to `name`: by its id, by a substring of its full
/// name, or by its tag.
pub open spec fn image_matches(img: ImageInfo, name: Seq<char>) -> bool {
    img.id@ == name || contains_str_spec(full_name_spec(img.reference@), name) || img.reference.reference@ == name
}

/// The first image that answers to `name`, if any.
pub fn find_image(images: &Vec<ImageInfo>, name: &str) -> (r: Option<usize>)
    ensures
        match r {
            Some(i) => i < images@.len() && image_matches(images@[i as int], name@)
                && forall|j: int| 0 <= j < i ==> !image_matches(#[trigger] images@[j], name@),
            None => forall|j: int| 0 <= j < images@.len() ==> !image_matches(#[trigger] images@[j], name@),
        },
{
    let mut i: usize = 0;
    while i < images.len()
        invariant
            i <= images@.len(),
            forall|j: int| 0 <= j < i ==> !image_matches(#[trigger] images@[j], name@),
        decreases images@.len() - i,
    {
        let img = &images[i];
        let full = img.reference.full_name();
        if str_eq(img.id.as_str(), name) || contains_str(full.as_str(), name)
            || str_eq(img.reference.reference.as_str(), name) {
            return Some(i);
        }
        i = i + 1;
    }
    None
}

/// The command a new container runs: the one given, or `/bin/sh`.
pub fn command_or_shell(command: Vec<String>) -> (r: Vec<String>)
    ensures
        command@.len() > 0 ==> r@ == command@,
        command@.len() == 0 ==> r@.len() == 1 && r@[0]@ == "/bin/sh"@,
{
    if command.len() == 0 {
        let mut r: Vec<String> = Vec::new();
        r.push(String::from_str("/bin/sh"));
        r
    } else {
        command
    }
}

/// The name of a container started from an image without a name: `run-`
/// and the time in seconds since the epoch.
pub fn default_run_name(now: u64) -> (s: String)
    ensures
        s@ == "run-"@ + decimal(now as nat),
{
    let mut s = String::from_str("run-");
    let n = u64_to_string(now);
    s.append(n.as_str());
    s
}

} // verus!
