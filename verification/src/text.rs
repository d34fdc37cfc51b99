//! Decimal rendering and parsing of integers.

use vstd::prelude::*;
use vstd::string::*;

verus! {

/// The character of a decimal digit `d` (0..=9).
pub open spec fn digit_char(d: int) -> char {
    (d + 48) as char
}

/// The decimal rendering of `n`, without leading zeros.
pub open spec fn decimal(n: nat) -> Seq<char>
    decreases n,
{
    if n < 10 {
        seq![digit_char(n as int)]
    } else {
        decimal(n / 10).push(digit_char((n % 10) as int))
    }
}

/// A one-character string literal for a decimal digit.
pub fn digit_str(d: u64) -> (s: &'static str)
    requires
        d < 10,
    ensures
        s@ == seq![digit_char(d as int)],
{
    proof {
        reveal_strlit("0");
        reveal_strlit("1");
        reveal_strlit("2");
        reveal_strlit("3");
        reveal_strlit("4");
        reveal_strlit("5");
        reveal_strlit("6");
        reveal_strlit("7");
        reveal_strlit("8");
        reveal_strlit("9");
    }
    match d {
        0 => "0",
        1 => "1",
        2 => "2",
        3 => "3",
        4 => "4",
        5 => "5",
        6 => "6",
        7 => "7",
        8 => "8",
        _ => "9",
    }
}

/// Renders `n` in decimal.
pub fn u64_to_string(n: u64) -> (s: String)
    ensures
        s@ == decimal(n as nat),
    decreases n,
{
    if n < 10 {
        String::from_str(digit_str(n))
    } else {
        let mut s = u64_to_string(n / 10);
        s.append(digit_str(n % 10));
        s
    }
}

} // verus!

verus! {

/// The concatenation of three strings.
pub fn concat3(a: &str, b: &str, c: &str) -> (r: String)
    ensures
        r@ == a@ + b@ + c@,
{
    let mut r = String::from_str(a);
    r.append(b);
    r.append(c);
    r
}

} // verus!

verus! {

/// Whether `s` begins with `prefix`.
pub open spec fn starts_with_spec(s: Seq<char>, prefix: Seq<char>) -> bool {
    prefix.len() <= s.len() && s.subrange(0, prefix.len() as int) == prefix
}

/// Whether `s` ends with `suffix`.
pub open spec fn ends_with_spec(s: Seq<char>, suffix: Seq<char>) -> bool {
    suffix.len() <= s.len() && s.subrange(s.len() - suffix.len(), s.len() as int) == suffix
}

/// Whether `s` begins with `prefix`.
pub fn starts_with(s: &str, prefix: &str) -> (b: bool)
    ensures
        b == starts_with_spec(s@, prefix@),
{
    let n = s.unicode_len();
    let m = prefix.unicode_len();
    if m > n {
        return false;
    }
    let mut i: usize = 0;
    while i < m
        invariant
            n == s@.len(),
            m == prefix@.len(),
            m <= n,
            i <= m,
            forall|j: int| 0 <= j < i ==> s@[j] == prefix@[j],
        decreases m - i,
    {
        if s.get_char(i) != prefix.get_char(i) {
            assert(s@.subrange(0, m as int)[i as int] != prefix@[i as int]);
            return false;
        }
        i = i + 1;
    }
    assert(s@.subrange(0, m as int) =~= prefix@);
    true
}

/// Whether `s` ends with `suffix`.
pub fn ends_with(s: &str, suffix: &str) -> (b: bool)
    ensures
        b == ends_with_spec(s@, suffix@),
{
    let n = s.unicode_len();
    let m = suffix.unicode_len();
    if m > n {
        return false;
    }
    let d = n - m;
    let mut i: usize = 0;
    while i < m
        invariant
            n == s@.len(),
            m == suffix@.len(),
            m <= n,
            d == n - m,
            i <= m,
            forall|j: int| 0 <= j < i ==> s@[d + j] == suffix@[j],
        decreases m - i,
    {
        if s.get_char(d + i) != suffix.get_char(i) {
            assert(s@.subrange(d as int, n as int)[i as int] != suffix@[i as int]);
            return false;
        }
        i = i + 1;
    }
    assert(s@.subrange(d as int, n as int) =~= suffix@);
    true
}

/// Whether two strings are equal.
pub fn str_eq(a: &str, b: &str) -> (r: bool)
    ensures
        r == (a@ == b@),
{
    let x = String::from_str(a);
    let y = String::from_str(b);
    x == y
}

/// Whether `needle` occurs in `hay`.
pub open spec fn contains_str_spec(hay: Seq<char>, needle: Seq<char>) -> bool {
    exists|i: int| 0 <= i && i + needle.len() <= hay.len() && #[trigger] hay.subrange(i, i + needle.len()) == needle
}

/// Whether `needle` occurs in `hay`.
pub fn contains_str(hay: &str, needle: &str) -> (b: bool)
    ensures
        b == contains_str_spec(hay@, needle@),
{
    let n = hay.unicode_len();
    let m = needle.unicode_len();
    if m > n {
        proof {
            assert forall|i: int| 0 <= i && i + needle@.len() <= hay@.len() implies #[trigger] hay@.subrange(i, i + needle@.len()) != needle@ by {}
        }
        return false;
    }
    if m == 0 {
        assert(hay@.subrange(0int, 0int + needle@.len()) =~= needle@);
        return true;
    }
    let mut i: usize = 0;
    while i <= n - m
        invariant
            n == hay@.len(),
            m == needle@.len(),
            m <= n,
            m > 0,
            i <= n - m + 1,
            forall|j: int| 0 <= j < i ==> #[trigger] hay@.subrange(j, j + m) != needle@,
        decreases n - m + 1 - i,
    {
        let piece = hay.substring_char(i, i + m);
        if str_eq(piece, needle) {
            return true;
        }
        i = i + 1;
    }
    proof {
        assert forall|j: int| 0 <= j && j + needle@.len() <= hay@.len() implies #[trigger] hay@.subrange(j, j + needle@.len()) != needle@ by {
            assert(j < i);
        }
    }
    false
}

/// The views of a sequence of strings.
pub open spec fn strs(v: Seq<String>) -> Seq<Seq<char>> {
    v.map_values(|s: String| s@)
}

/// The text of a string that may be missing.
pub open spec fn text_of(content: Option<&str>) -> Option<Seq<char>> {
    match content {
        Some(s) => Some(s@),
        None => None,
    }
}

} // verus!

verus! {

/// The position of the first `c` in `s`, or -1.
pub open spec fn first_index_of(s: Seq<char>, c: char) -> int
    decreases s.len(),
{
    if s.len() == 0 {
        -1
    } else {
        let r = first_index_of(s.drop_last(), c);
        if r >= 0 {
            r
        } else if s.last() == c {
            s.len() - 1
        } else {
            -1
        }
    }
}

/// The position of the last `c` in `s`, or -1.
pub open spec fn last_index_of(s: Seq<char>, c: char) -> int
    decreases s.len(),
{
    if s.len() == 0 {
        -1
    } else if s.last() == c {
        s.len() - 1
    } else {
        last_index_of(s.drop_last(), c)
    }
}

/// Whether `c` occurs in `s`.
pub open spec fn contains_char(s: Seq<char>, c: char) -> bool {
    first_index_of(s, c) >= 0
}

/// `first_index_of` is the first position holding `c`, and -1 exactly when
/// there is none.
pub proof fn lemma_first_index_of(s: Seq<char>, c: char)
    ensures
        -1 <= first_index_of(s, c) < s.len(),
        first_index_of(s, c) >= 0 ==> s[first_index_of(s, c)] == c,
        forall|j: int| 0 <= j < s.len() && (first_index_of(s, c) < 0 || j < first_index_of(s, c)) ==> s[j] != c,
    decreases s.len(),
{
    if s.len() > 0 {
        lemma_first_index_of(s.drop_last(), c);
        assert forall|j: int| 0 <= j < s.len() - 1 implies s.drop_last()[j] == s[j] by {}
    }
}

/// `last_index_of` is the last position holding `c`, and -1 exactly when
/// there is none.
pub proof fn lemma_last_index_of(s: Seq<char>, c: char)
    ensures
        -1 <= last_index_of(s, c) < s.len(),
        last_index_of(s, c) >= 0 ==> s[last_index_of(s, c)] == c,
        forall|j: int| 0 <= j < s.len() && j > last_index_of(s, c) ==> s[j] != c,
    decreases s.len(),
{
    if s.len() > 0 {
        lemma_last_index_of(s.drop_last(), c);
        assert forall|j: int| 0 <= j < s.len() - 1 implies s.drop_last()[j] == s[j] by {}
    }
}

/// A position holding `c`, with no `c` before it, is `first_index_of`.
pub proof fn lemma_first_index_at(s: Seq<char>, c: char, k: int)
    requires
        -1 <= k < s.len(),
        k >= 0 ==> s[k] == c,
        forall|j: int| 0 <= j < s.len() && (k < 0 || j < k) ==> s[j] != c,
    ensures
        first_index_of(s, c) == k,
{
    lemma_first_index_of(s, c);
    let f = first_index_of(s, c);
    if f != k {
        if f >= 0 && (k < 0 || f < k) {
            assert(s[f] != c);
        } else {
            assert(s[k] != c);
        }
    }
}

/// A position holding `c`, with no `c` after it, is `last_index_of`.
pub proof fn lemma_last_index_at(s: Seq<char>, c: char, k: int)
    requires
        -1 <= k < s.len(),
        k >= 0 ==> s[k] == c,
        forall|j: int| 0 <= j < s.len() && j > k ==> s[j] != c,
    ensures
        last_index_of(s, c) == k,
{
    lemma_last_index_of(s, c);
    let f = last_index_of(s, c);
    if f != k {
        if f > k {
            assert(s[f] != c);
        } else {
            assert(s[k] != c);
        }
    }
}

/// The position of the first `c` in `s`, if any.
pub fn find_first(s: &str, c: char) -> (r: Option<usize>)
    ensures
        match r {
            Some(i) => first_index_of(s@, c) == i && i < s@.len() && s@[i as int] == c,
            None => first_index_of(s@, c) == -1,
        },
{
    let n = s.unicode_len();
    let mut i: usize = 0;
    while i < n
        invariant
            n == s@.len(),
            i <= n,
            forall|j: int| 0 <= j < i ==> s@[j] != c,
        decreases n - i,
    {
        if s.get_char(i) == c {
            proof { lemma_first_index_at(s@, c, i as int); }
            return Some(i);
        }
        i = i + 1;
    }
    proof { lemma_first_index_at(s@, c, -1); }
    None
}

/// The position of the last `c` in `s`, if any.
pub fn find_last(s: &str, c: char) -> (r: Option<usize>)
    ensures
        match r {
            Some(i) => last_index_of(s@, c) == i && i < s@.len() && s@[i as int] == c,
            None => last_index_of(s@, c) == -1,
        },
{
    let n = s.unicode_len();
    let mut i: usize = n;
    while i > 0
        invariant
            n == s@.len(),
            i <= n,
            forall|j: int| i <= j < n ==> s@[j] != c,
        decreases i,
    {
        if s.get_char(i - 1) == c {
            proof { lemma_last_index_at(s@, c, i - 1); }
            return Some(i - 1);
        }
        i = i - 1;
    }
    proof { lemma_last_index_at(s@, c, -1); }
    None
}

/// The pieces of `s` between occurrences of `sep`, as `str::split` with a
/// character separator gives them: an empty string has one empty piece.
pub open spec fn split_spec(s: Seq<char>, sep: char) -> Seq<Seq<char>>
    decreases s.len(),
{
    if s.len() == 0 {
        seq![Seq::<char>::empty()]
    } else {
        let rest = split_spec(s.drop_last(), sep);
        if s.last() == sep {
            rest.push(Seq::<char>::empty())
        } else {
            rest.update(rest.len() - 1, rest.last().push(s.last()))
        }
    }
}

/// `split_spec` gives at least one piece.
pub proof fn lemma_split_nonempty(s: Seq<char>, sep: char)
    ensures
        split_spec(s, sep).len() >= 1,
    decreases s.len(),
{
    if s.len() > 0 {
        lemma_split_nonempty(s.drop_last(), sep);
    }
}

/// Splits `s` at every `sep`.
pub fn split_char(s: &str, sep: char) -> (r: Vec<String>)
    ensures
        r@.map_values(|p: String| p@) == split_spec(s@, sep),
{
    let n = s.unicode_len();
    let mut r: Vec<String> = Vec::new();
    let mut start: usize = 0;
    let mut i: usize = 0;
    proof {
        assert(s@.take(0) =~= Seq::<char>::empty());
        assert(r@.map_values(|p: String| p@).push(s@.subrange(0, 0)) =~= split_spec(s@.take(0), sep));
    }
    while i < n
        invariant
            n == s@.len(),
            start <= i <= n,
            r@.map_values(|p: String| p@).push(s@.subrange(start as int, i as int)) == split_spec(s@.take(i as int), sep),
        decreases n - i,
    {
        let ch = s.get_char(i);
        proof {
            assert(s@.take(i + 1).drop_last() =~= s@.take(i as int));
            assert(s@.take(i + 1).last() == ch);
            lemma_split_nonempty(s@.take(i as int), sep);
        }
        if ch == sep {
            let ghost prev = r@;
            let piece = String::from_str(s.substring_char(start, i));
            r.push(piece);
            proof {
                assert(r@.map_values(|p: String| p@) =~= prev.map_values(|p: String| p@).push(s@.subrange(start as int, i as int)));
                assert(s@.subrange((i + 1) as int, (i + 1) as int) =~= Seq::<char>::empty());
            }
            start = i + 1;
        } else {
            proof {
                assert(s@.subrange(start as int, i + 1) =~= s@.subrange(start as int, i as int).push(ch));
                let prevs = r@.map_values(|p: String| p@);
                assert(prevs.push(s@.subrange(start as int, i + 1)) =~= prevs.push(s@.subrange(start as int, i as int)).update(
                    prevs.len() as int,
                    s@.subrange(start as int, i as int).push(ch),
                ));
            }
        }
        i = i + 1;
    }
    let ghost prev = r@;
    r.push(String::from_str(s.substring_char(start, n)));
    proof {
        assert(s@.take(n as int) =~= s@);
        assert(r@.map_values(|p: String| p@) =~= prev.map_values(|p: String| p@).push(s@.subrange(start as int, n as int)));
    }
    r
}

/// Whether `c` is an ASCII decimal digit.
pub open spec fn is_digit(c: char) -> bool {
    '0' <= c && c <= '9'
}

/// The value of a digit character.
pub open spec fn digit_value(c: char) -> nat {
    (c as int - 48) as nat
}

/// Whether every character of `s` is a decimal digit.
pub open spec fn all_digits(s: Seq<char>) -> bool {
    forall|i: int| 0 <= i < s.len() ==> is_digit(#[trigger] s[i])
}

/// The value of a string of decimal digits.
pub open spec fn digits_value(s: Seq<char>) -> nat
    decreases s.len(),
{
    if s.len() == 0 {
        0
    } else {
        digits_value(s.drop_last()) * 10 + digit_value(s.last())
    }
}

/// What `str::parse` gives for an unsigned integer type whose largest value is
/// `max`: an optional `+` sign, then one or more decimal digits, with a value
/// no larger than `max`; anything else is an error.
pub open spec fn parse_unsigned_spec(s: Seq<char>, max: nat) -> Option<nat> {
    let body = if s.len() > 0 && s[0] == '+' { s.drop_first() } else { s };
    if body.len() > 0 && all_digits(body) && digits_value(body) <= max {
        Some(digits_value(body))
    } else {
        None
    }
}

/// The decimal rendering of `n` is a non-empty string of digits whose value
/// is `n`.
pub proof fn lemma_decimal_digits(n: nat)
    ensures
        decimal(n).len() > 0,
        all_digits(decimal(n)),
        digits_value(decimal(n)) == n,
    decreases n,
{
    if n >= 10 {
        lemma_decimal_digits(n / 10);
        let d = decimal(n);
        assert(d.drop_last() =~= decimal(n / 10));
        assert forall|i: int| 0 <= i < d.len() implies is_digit(#[trigger] d[i]) by {
            if i < d.len() - 1 {
                assert(d[i] == decimal(n / 10)[i]);
            }
        }
        assert(d.last() == digit_char((n % 10) as int));
        assert(digit_value(digit_char((n % 10) as int)) == n % 10);
        assert(digits_value(d) == digits_value(decimal(n / 10)) * 10 + digit_value(d.last()));
        assert((n / 10) * 10 + n % 10 == n) by (nonlinear_arith);
        assert(digits_value(d) == n);
    } else {
        assert(digit_value(digit_char(n as int)) == n);
        assert(decimal(n).drop_last() =~= Seq::<char>::empty());
        assert(digits_value(Seq::<char>::empty()) == 0);
        assert(digits_value(decimal(n)) == digits_value(decimal(n).drop_last()) * 10 + digit_value(decimal(n).last()));
    }
}

/// The decimal rendering of a number that fits under `max` parses back to it.
pub proof fn lemma_decimal_parses(n: nat, max: nat)
    requires
        n <= max,
    ensures
        parse_unsigned_spec(decimal(n), max) == Some(n),
{
    lemma_decimal_digits(n);
    assert(is_digit(decimal(n)[0]));
}

/// A longer string of digits has at least the value of its prefix.
pub proof fn lemma_digits_value_prefix(s: Seq<char>, i: int)
    requires
        0 <= i <= s.len(),
        all_digits(s),
    ensures
        digits_value(s.take(i)) <= digits_value(s),
    decreases s.len() - i,
{
    if i < s.len() {
        lemma_digits_value_prefix(s, i + 1);
        assert(s.take(i + 1).drop_last() =~= s.take(i));
    } else {
        assert(s.take(i) =~= s);
    }
}

/// Parses an unsigned decimal number no larger than `max`, as `str::parse`
/// does for an unsigned integer type whose largest value is `max`.
pub fn parse_unsigned(s: &str, max: u64) -> (r: Option<u64>)
    ensures
        match parse_unsigned_spec(s@, max as nat) {
            Some(v) => r == Some(v as u64),
            None => r is None,
        },
{
    let n = s.unicode_len();
    let mut i: usize = 0;
    if n > 0 && s.get_char(0) == '+' {
        i = 1;
    }
    let start = i;
    let ghost body = if s@.len() > 0 && s@[0] == '+' { s@.drop_first() } else { s@ };
    proof {
        assert(body =~= s@.subrange(start as int, n as int));
    }
    if start == n {
        return None;
    }
    let mut acc: u64 = 0;
    while i < n
        invariant
            n == s@.len(),
            start <= i <= n,
            start < n,
            body == s@.subrange(start as int, n as int),
            body == (if s@.len() > 0 && s@[0] == '+' { s@.drop_first() } else { s@ }),
            all_digits(body.take(i - start)),
            acc == digits_value(body.take(i - start)),
            acc <= max,
        decreases n - i,
    {
        let c = s.get_char(i);
        proof {
            assert(body[i - start] == c);
            assert(body.take(i - start + 1).drop_last() =~= body.take(i - start));
            assert(body.take(i - start + 1).last() == c);
        }
        if !('0' <= c && c <= '9') {
            proof {
                assert(!is_digit(body[i - start]));
                assert(!all_digits(body));
                assert(parse_unsigned_spec(s@, max as nat) is None);
            }
            return None;
        }
        let d = (c as u32 - 48) as u64;
        if d > max || acc > (max - d) / 10 {
            proof {
                assert(all_digits(body.take(i - start + 1))) by {
                    assert forall|j: int| 0 <= j < i - start + 1 implies is_digit(#[trigger] body.take(i - start + 1)[j]) by {
                        if j < i - start {
                            assert(body.take(i - start + 1)[j] == body.take(i - start)[j]);
                        }
                    }
                }
                if d <= max {
                    assert(acc * 10 + d > max) by (nonlinear_arith)
                        requires acc > (max - d) / 10, d <= max;
                }
                if all_digits(body) {
                    lemma_digits_value_prefix(body, i - start + 1);
                }
            }
            return None;
        }
        proof {
            assert(acc * 10 + d <= max) by (nonlinear_arith)
                requires acc <= (max - d) / 10, d <= max;
        }
        acc = acc * 10 + d;
        proof {
            assert forall|j: int| 0 <= j < i - start + 1 implies is_digit(#[trigger] body.take(i - start + 1)[j]) by {
                if j < i - start {
                    assert(body.take(i - start + 1)[j] == body.take(i - start)[j]);
                }
            }
        }
        i = i + 1;
    }
    proof {
        assert(body.take(n - start) =~= body);
    }
    Some(acc)
}

} // verus!

verus! {

/// Whether `c` is white space, as `char::is_whitespace` decides it (the
/// Unicode `White_Space` property).
pub open spec fn is_ws(c: char) -> bool {
    c == '\t' || c == '\n' || c == '\u{0B}' || c == '\u{0C}' || c == '\r' || c == ' ' || c == '\u{85}'
        || c == '\u{A0}' || c == '\u{1680}' || ('\u{2000}' <= c && c <= '\u{200A}') || c == '\u{2028}'
        || c == '\u{2029}' || c == '\u{202F}' || c == '\u{205F}' || c == '\u{3000}'
}

/// Whether `c` is white space.
pub fn is_whitespace(c: char) -> (b: bool)
    ensures
        b == is_ws(c),
{
    c == '\t' || c == '\n' || c == '\u{0B}' || c == '\u{0C}' || c == '\r' || c == ' ' || c == '\u{85}'
        || c == '\u{A0}' || c == '\u{1680}' || ('\u{2000}' <= c && c <= '\u{200A}') || c == '\u{2028}'
        || c == '\u{2029}' || c == '\u{202F}' || c == '\u{205F}' || c == '\u{3000}'
}

/// `s` without trailing white space.
pub open spec fn trim_end_ws(s: Seq<char>) -> Seq<char>
    decreases s.len(),
{
    if s.len() > 0 && is_ws(s.last()) {
        trim_end_ws(s.drop_last())
    } else {
        s
    }
}

/// `s` without leading white space.
pub open spec fn trim_start_ws(s: Seq<char>) -> Seq<char>
    decreases s.len(),
{
    if s.len() > 0 && is_ws(s[0]) {
        trim_start_ws(s.drop_first())
    } else {
        s
    }
}

/// `s` without leading or trailing white space, as `str::trim` gives it.
pub open spec fn trim_spec(s: Seq<char>) -> Seq<char> {
    trim_start_ws(trim_end_ws(s))
}

/// `s` without leading or trailing white space.
pub fn trim(s: &str) -> (r: String)
    ensures
        r@ == trim_spec(s@),
{
    let n = s.unicode_len();
    let mut end: usize = n;
    proof {
        assert(s@.take(n as int) =~= s@);
    }
    while end > 0 && is_whitespace(s.get_char(end - 1))
        invariant
            n == s@.len(),
            end <= n,
            trim_end_ws(s@) == trim_end_ws(s@.take(end as int)),
        decreases end,
    {
        proof {
            assert(s@.take(end as int).drop_last() =~= s@.take(end - 1));
        }
        end = end - 1;
    }
    let ghost e = s@.take(end as int);
    proof {
        assert(trim_end_ws(e) == e);
    }
    let mut start: usize = 0;
    proof {
        assert(e.skip(0) =~= e);
    }
    while start < end && is_whitespace(s.get_char(start))
        invariant
            n == s@.len(),
            end <= n,
            start <= end,
            e == s@.take(end as int),
            trim_start_ws(e) == trim_start_ws(e.skip(start as int)),
        decreases end - start,
    {
        proof {
            assert(e.skip(start as int).drop_first() =~= e.skip(start + 1));
            assert(e.skip(start as int)[0] == s@[start as int]);
        }
        start = start + 1;
    }
    proof {
        assert(e.skip(start as int) =~= s@.subrange(start as int, end as int));
    }
    String::from_str(s.substring_char(start, end))
}

/// The finished non-empty pieces of `s` between white space, and the piece
/// being read.
pub open spec fn ws_pieces(s: Seq<char>) -> (Seq<Seq<char>>, Seq<char>)
    decreases s.len(),
{
    if s.len() == 0 {
        (Seq::empty(), Seq::empty())
    } else {
        let (done, cur) = ws_pieces(s.drop_last());
        if is_ws(s.last()) {
            (if cur.len() > 0 { done.push(cur) } else { done }, Seq::empty())
        } else {
            (done, cur.push(s.last()))
        }
    }
}

/// The non-empty pieces of `s` between white space, as
/// `str::split_whitespace` gives them.
pub open spec fn split_ws_spec(s: Seq<char>) -> Seq<Seq<char>> {
    let (done, cur) = ws_pieces(s);
    if cur.len() > 0 { done.push(cur) } else { done }
}

/// The non-empty pieces of `s` between white space.
pub fn split_whitespace(s: &str) -> (r: Vec<String>)
    ensures
        r@.map_values(|p: String| p@) == split_ws_spec(s@),
{
    let n = s.unicode_len();
    let mut r: Vec<String> = Vec::new();
    let mut start: usize = 0;
    let mut i: usize = 0;
    proof {
        assert(s@.take(0) =~= Seq::<char>::empty());
        assert(r@.map_values(|p: String| p@) =~= Seq::<Seq<char>>::empty());
        assert(s@.subrange(0, 0) =~= Seq::<char>::empty());
    }
    while i < n
        invariant
            n == s@.len(),
            start <= i <= n,
            r@.map_values(|p: String| p@) == ws_pieces(s@.take(i as int)).0,
            s@.subrange(start as int, i as int) == ws_pieces(s@.take(i as int)).1,
        decreases n - i,
    {
        let c = s.get_char(i);
        proof {
            assert(s@.take(i + 1).drop_last() =~= s@.take(i as int));
            assert(s@.take(i + 1).last() == c);
        }
        if is_whitespace(c) {
            if start < i {
                let ghost prev = r@;
                r.push(String::from_str(s.substring_char(start, i)));
                proof {
                    assert(r@.map_values(|p: String| p@) =~= prev.map_values(|p: String| p@).push(s@.subrange(start as int, i as int)));
                }
            }
            start = i + 1;
            proof {
                assert(s@.subrange(start as int, (i + 1) as int) =~= Seq::<char>::empty());
            }
        } else {
            proof {
                assert(s@.subrange(start as int, i + 1) =~= s@.subrange(start as int, i as int).push(c));
            }
        }
        i = i + 1;
    }
    proof {
        assert(s@.take(n as int) =~= s@);
    }
    if start < n {
        let ghost prev = r@;
        r.push(String::from_str(s.substring_char(start, n)));
        proof {
            assert(r@.map_values(|p: String| p@) =~= prev.map_values(|p: String| p@).push(s@.subrange(start as int, n as int)));
        }
    }
    r
}

/// `x` without one trailing carriage return.
pub open spec fn strip_cr(x: Seq<char>) -> Seq<char> {
    if x.len() > 0 && x.last() == '\r' { x.drop_last() } else { x }
}

/// The finished lines of `s` and the line being read.
pub open spec fn line_pieces(s: Seq<char>) -> (Seq<Seq<char>>, Seq<char>)
    decreases s.len(),
{
    if s.len() == 0 {
        (Seq::empty(), Seq::empty())
    } else {
        let (done, cur) = line_pieces(s.drop_last());
        if s.last() == '\n' {
            (done.push(strip_cr(cur)), Seq::empty())
        } else {
            (done, cur.push(s.last()))
        }
    }
}

/// The lines of `s`, as `str::lines` gives them: split at `\n`, each line
/// ended by `\n` loses one `\r` before it, and a last line that is empty is
/// not a line.
pub open spec fn lines_spec(s: Seq<char>) -> Seq<Seq<char>> {
    let (done, cur) = line_pieces(s);
    if cur.len() > 0 { done.push(cur) } else { done }
}

/// The lines of `s`.
pub fn split_lines(s: &str) -> (r: Vec<String>)
    ensures
        r@.map_values(|p: String| p@) == lines_spec(s@),
{
    let n = s.unicode_len();
    let mut r: Vec<String> = Vec::new();
    let mut start: usize = 0;
    let mut i: usize = 0;
    proof {
        assert(s@.take(0) =~= Seq::<char>::empty());
        assert(r@.map_values(|p: String| p@) =~= Seq::<Seq<char>>::empty());
        assert(s@.subrange(0, 0) =~= Seq::<char>::empty());
    }
    while i < n
        invariant
            n == s@.len(),
            start <= i <= n,
            r@.map_values(|p: String| p@) == line_pieces(s@.take(i as int)).0,
            s@.subrange(start as int, i as int) == line_pieces(s@.take(i as int)).1,
        decreases n - i,
    {
        let c = s.get_char(i);
        proof {
            assert(s@.take(i + 1).drop_last() =~= s@.take(i as int));
            assert(s@.take(i + 1).last() == c);
        }
        if c == '\n' {
            let end = if start < i && s.get_char(i - 1) == '\r' { i - 1 } else { i };
            let ghost prev = r@;
            r.push(String::from_str(s.substring_char(start, end)));
            proof {
                let cur = s@.subrange(start as int, i as int);
                if start < i && s@[i - 1] == '\r' {
                    assert(cur.last() == '\r');
                    assert(s@.subrange(start as int, end as int) =~= cur.drop_last());
                } else {
                    assert(s@.subrange(start as int, end as int) =~= cur);
                }
                assert(r@.map_values(|p: String| p@) =~= prev.map_values(|p: String| p@).push(strip_cr(cur)));
            }
            start = i + 1;
            proof {
                assert(s@.subrange(start as int, (i + 1) as int) =~= Seq::<char>::empty());
            }
        } else {
            proof {
                assert(s@.subrange(start as int, i + 1) =~= s@.subrange(start as int, i as int).push(c));
            }
        }
        i = i + 1;
    }
    proof {
        assert(s@.take(n as int) =~= s@);
    }
    if start < n {
        let ghost prev = r@;
        r.push(String::from_str(s.substring_char(start, n)));
        proof {
            assert(r@.map_values(|p: String| p@) =~= prev.map_values(|p: String| p@).push(s@.subrange(start as int, n as int)));
        }
    }
    r
}

} // verus!
