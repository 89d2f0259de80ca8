//! Reading command output: lines, whitespace-separated words, prefixes,
//! searches and unsigned decimal numbers, each as `str` defines it.

use vstd::prelude::*;
use crate::text::{chars_of, is_whitespace, is_ws, occurs_at, string_of, views};

verus! {

/// `s` starts with `p`.
pub open spec fn has_prefix(s: Seq<char>, p: Seq<char>) -> bool {
    p.len() <= s.len() && s.take(p.len() as int) == p
}

/// `s` starts with `p` (`str::starts_with`).
pub fn starts_with(s: &str, p: &str) -> (r: bool)
    ensures
        r == has_prefix(s@, p@),
{
    let n = s.unicode_len();
    let m = p.unicode_len();
    if m > n {
        return false;
    }
    let head = s.substring_char(0, m);
    proof {
        assert(head@ =~= s@.take(m as int));
    }
    crate::text::str_eq(head, p)
}

/// The first position at which `needle` occurs in `s`, or `-1`.
pub closed spec fn first_at(s: Seq<char>, needle: Seq<char>) -> int {
    if exists|i: int| #[trigger] occurs_at(s, needle, i) {
        choose|i: int| #[trigger] occurs_at(s, needle, i) && forall|j: int| 0 <= j < i ==> !occurs_at(s, needle, j)
    } else {
        -1
    }
}

/// The first position of `needle` in `s` (`str::find`).
pub fn find(s: &str, needle: &str) -> (r: Option<usize>)
    ensures
        r matches Some(i) ==> i as int == first_at(s@, needle@),
        r is None ==> first_at(s@, needle@) == -1,
{
    let x = chars_of(s);
    let y = chars_of(needle);
    if y.len() > x.len() {
        proof {
            assert forall|i: int| !#[trigger] occurs_at(s@, needle@, i) by {}
        }
        return None;
    }
    let last = x.len() - y.len();
    let mut i: usize = 0;
    loop
        invariant
            x@ == s@,
            y@ == needle@,
            y@.len() <= x@.len(),
            last == x@.len() - y@.len(),
            i <= last,
            forall|k: int| 0 <= k < i ==> !#[trigger] occurs_at(s@, needle@, k),
        ensures
            forall|k: int| 0 <= k <= last ==> !#[trigger] occurs_at(s@, needle@, k),
        decreases last - i,
    {
        if slice_matches(&x, &y, i) {
            proof {
                assert(occurs_at(s@, needle@, i as int));
                let c = choose|c: int| #[trigger] occurs_at(s@, needle@, c) && forall|j: int| 0 <= j < c ==> !occurs_at(s@, needle@, j);
                if c < i {
                } else if c > i {
                }
            }
            return Some(i);
        }
        if i == last {
            break;
        }
        i += 1;
    }
    proof {
        assert forall|k: int| !#[trigger] occurs_at(s@, needle@, k) by {
            if 0 <= k <= last {
            }
        }
    }
    None
}

/// `y` occurs in `x` at position `i`.
fn slice_matches(x: &Vec<char>, y: &Vec<char>, i: usize) -> (r: bool)
    requires
        i + y@.len() <= x@.len(),
    ensures
        r == (x@.subrange(i as int, i + y@.len()) == y@),
{
    let mut j: usize = 0;
    proof {
        assert(x@.len() == x.len());
    }
    while j < y.len()
        invariant
            x@.len() <= usize::MAX,
            i + y@.len() <= x@.len(),
            j <= y@.len(),
            forall|k: int| 0 <= k < j ==> x@[i + k] == y@[k],
        decreases y@.len() - j,
    {
        if x[i + j] != y[j] {
            proof {
                assert(x@.subrange(i as int, i + y@.len())[j as int] != y@[j as int]);
            }
            return false;
        }
        j += 1;
    }
    proof {
        assert(x@.subrange(i as int, i + y@.len()) =~= y@);
    }
    true
}

/// The first position of `c` in `s`, or `-1`.
pub open spec fn first_char(s: Seq<char>, c: char) -> int
    decreases s.len(),
{
    if s.len() == 0 {
        -1
    } else if s[0] == c {
        0
    } else {
        let r = first_char(s.drop_first(), c);
        if r < 0 {
            -1
        } else {
            r + 1
        }
    }
}

/// A line without the carriage return of a `\r\n` ending.
pub open spec fn strip_cr(l: Seq<char>) -> Seq<char> {
    if l.len() > 0 && l.last() == '\r' {
        l.drop_last()
    } else {
        l
    }
}

/// The lines of `s` (`str::lines`): split at `\n`, with the `\r` of a
/// `\r\n` ending dropped; a final line ending is optional.
pub open spec fn lines_of(s: Seq<char>) -> Seq<Seq<char>>
    decreases s.len(),
{
    if s.len() == 0 {
        Seq::empty()
    } else {
        let i = first_char(s, '\n');
        proof {
            lemma_first_char(s, '\n');
        }
        if i < 0 {
            seq![s]
        } else {
            seq![strip_cr(s.take(i))] + lines_of(s.skip(i + 1))
        }
    }
}

pub proof fn lemma_first_char(s: Seq<char>, c: char)
    ensures
        -1 <= first_char(s, c) < s.len(),
        first_char(s, c) >= 0 ==> s[first_char(s, c)] == c,
        forall|j: int| 0 <= j < s.len() && (first_char(s, c) < 0 || j < first_char(s, c)) ==> s[j] != c,
    decreases s.len(),
{
    if s.len() > 0 && s[0] != c {
        lemma_first_char(s.drop_first(), c);
        assert forall|j: int| 0 <= j < s.len() && (first_char(s, c) < 0 || j < first_char(s, c)) implies s[j] != c by {
            if j > 0 {
                assert(s[j] == s.drop_first()[j - 1]);
            }
        }
    }
}

proof fn lemma_first_char_at(s: Seq<char>, c: char, i: int)
    requires
        0 <= i < s.len(),
        s[i] == c,
        forall|j: int| 0 <= j < i ==> s[j] != c,
    ensures
        first_char(s, c) == i,
    decreases s.len(),
{
    if i > 0 {
        lemma_first_char_at(s.drop_first(), c, i - 1);
    }
}

proof fn lemma_first_char_none(s: Seq<char>, c: char)
    requires
        forall|j: int| 0 <= j < s.len() ==> s[j] != c,
    ensures
        first_char(s, c) == -1,
    decreases s.len(),
{
    if s.len() > 0 {
        lemma_first_char_none(s.drop_first(), c);
    }
}

/// Splits `s` into its lines (`str::lines`).
pub fn split_lines(s: &str) -> (lines: Vec<String>)
    ensures
        views(lines@) == lines_of(s@),
{
    let cs = chars_of(s);
    let n = cs.len();
    let mut lines: Vec<String> = Vec::new();
    let mut start: usize = 0;
    proof {
        assert(s@.skip(0) =~= s@);
    }
    while start < n
        invariant
            cs@ == s@,
            n == cs@.len(),
            start <= n,
            views(lines@) + lines_of(s@.skip(start as int)) == lines_of(s@),
        decreases n - start,
    {
        let ghost rest = s@.skip(start as int);
        let mut j: usize = start;
        while j < n && cs[j] != '\n'
            invariant
                cs@ == s@,
                n == cs@.len(),
                start <= j <= n,
                forall|k: int| start <= k < j ==> cs@[k] != '\n',
            decreases n - j,
        {
            j += 1;
        }
        let ghost before = lines@;
        if j == n {
            let piece = slice_to_string(&cs, start, n);
            lines.push(piece);
            proof {
                lemma_first_char_none(rest, '\n');
                assert(rest =~= s@.subrange(start as int, n as int));
                assert(s@.skip(n as int) =~= Seq::<char>::empty());
                assert(views(lines@) =~= views(before).push(rest));
                assert(lines_of(rest) == seq![rest]);
                assert(views(lines@) + lines_of(s@.skip(n as int)) =~= views(before) + lines_of(rest));
            }
            start = n;
        } else {
            let mut end = j;
            if end > start && cs[end - 1] == '\r' {
                end = end - 1;
            }
            let piece = slice_to_string(&cs, start, end);
            lines.push(piece);
            proof {
                lemma_first_char_at(rest, '\n', j - start);
                assert(rest.take(j - start) =~= s@.subrange(start as int, j as int));
                assert(piece@ == strip_cr(rest.take(j - start)));
                assert(rest.skip(j - start + 1) =~= s@.skip(j as int + 1));
                assert(views(lines@) =~= views(before).push(strip_cr(rest.take(j - start))));
                assert(lines_of(rest) == seq![strip_cr(rest.take(j - start))] + lines_of(s@.skip(j as int + 1)));
                assert(views(lines@) + lines_of(s@.skip(j as int + 1)) =~= views(before) + lines_of(rest));
            }
            start = j + 1;
        }
    }
    proof {
        assert(s@.skip(n as int) =~= Seq::<char>::empty());
        assert(views(lines@) + Seq::<Seq<char>>::empty() =~= views(lines@));
    }
    lines
}

/// The characters `cs[a..b]` as a string.
pub fn slice_to_string(cs: &Vec<char>, a: usize, b: usize) -> (s: String)
    requires
        a <= b <= cs@.len(),
    ensures
        s@ == cs@.subrange(a as int, b as int),
{
    let mut s = String::new();
    let mut i = a;
    while i < b
        invariant
            a <= i <= b <= cs@.len(),
            s@ == cs@.subrange(a as int, i as int),
        decreases b - i,
    {
        crate::text::push_char(&mut s, cs[i]);
        proof {
            assert(cs@.subrange(a as int, i + 1) =~= cs@.subrange(a as int, i as int).push(cs@[i as int]));
        }
        i += 1;
    }
    s
}

/// The length of the leading run of whitespace of `s`.
pub open spec fn ws_run(s: Seq<char>) -> nat
    decreases s.len(),
{
    if s.len() > 0 && is_ws(s[0]) {
        1 + ws_run(s.drop_first())
    } else {
        0
    }
}

/// The length of the leading run of non-whitespace of `s`.
pub open spec fn word_run(s: Seq<char>) -> nat
    decreases s.len(),
{
    if s.len() > 0 && !is_ws(s[0]) {
        1 + word_run(s.drop_first())
    } else {
        0
    }
}

/// The whitespace-separated words of `s` (`str::split_whitespace`).
pub open spec fn words_of(s: Seq<char>) -> Seq<Seq<char>>
    decreases s.len(),
{
    let t = s.skip(ws_run(s) as int);
    if ws_run(s) > s.len() || t.len() == 0 {
        Seq::empty()
    } else {
        let w = word_run(t);
        if w == 0 || w > t.len() {
            Seq::empty()
        } else {
            seq![t.take(w as int)] + words_of(t.skip(w as int))
        }
    }
}

proof fn lemma_ws_run(s: Seq<char>, k: int)
    requires
        0 <= k <= s.len(),
        forall|j: int| 0 <= j < k ==> is_ws(#[trigger] s[j]),
        k == s.len() || !is_ws(s[k]),
    ensures
        ws_run(s) == k,
    decreases s.len(),
{
    if k > 0 {
        lemma_ws_run(s.drop_first(), k - 1);
    }
}

proof fn lemma_word_run(s: Seq<char>, k: int)
    requires
        0 <= k <= s.len(),
        forall|j: int| 0 <= j < k ==> !is_ws(#[trigger] s[j]),
        k == s.len() || is_ws(s[k]),
    ensures
        word_run(s) == k,
    decreases s.len(),
{
    if k > 0 {
        lemma_word_run(s.drop_first(), k - 1);
    }
}

/// Splits `s` into its whitespace-separated words (`str::split_whitespace`).
pub fn split_words(s: &str) -> (words: Vec<String>)
    ensures
        views(words@) == words_of(s@),
{
    let cs = chars_of(s);
    let n = cs.len();
    let mut words: Vec<String> = Vec::new();
    let mut i: usize = 0;
    proof {
        assert(s@.skip(0) =~= s@);
    }
    loop
        invariant
            cs@ == s@,
            n == cs@.len(),
            i <= n,
            views(words@) + words_of(s@.skip(i as int)) == words_of(s@),
        ensures
            views(words@) == words_of(s@),
        decreases n - i,
    {
        let ghost rest = s@.skip(i as int);
        let mut a = i;
        while a < n && is_whitespace(cs[a])
            invariant
                cs@ == s@,
                n == cs@.len(),
                i <= a <= n,
                forall|k: int| i <= k < a ==> is_ws(#[trigger] cs@[k]),
            decreases n - a,
        {
            a += 1;
        }
        proof {
            assert forall|j: int| 0 <= j < a - i implies is_ws(#[trigger] rest[j]) by {
                assert(rest[j] == cs@[i + j]);
            }
            lemma_ws_run(rest, a - i);
            assert(rest.skip(a - i) =~= s@.skip(a as int));
        }
        if a == n {
            proof {
                assert(words_of(rest) == Seq::<Seq<char>>::empty());
                assert(views(words@) + Seq::<Seq<char>>::empty() =~= views(words@));
            }
            break;
        }
        let mut b = a;
        while b < n && !is_whitespace(cs[b])
            invariant
                cs@ == s@,
                n == cs@.len(),
                a <= b <= n,
                forall|k: int| a <= k < b ==> !is_ws(#[trigger] cs@[k]),
            decreases n - b,
        {
            b += 1;
        }
        let ghost t = s@.skip(a as int);
        proof {
            assert forall|j: int| 0 <= j < b - a implies !is_ws(#[trigger] t[j]) by {
                assert(t[j] == cs@[a + j]);
            }
            lemma_word_run(t, b - a);
            assert(t.take(b - a) =~= s@.subrange(a as int, b as int));
            assert(t.skip(b - a) =~= s@.skip(b as int));
        }
        let ghost before = words@;
        let w = slice_to_string(&cs, a, b);
        words.push(w);
        proof {
            assert(views(words@) =~= views(before).push(t.take(b - a)));
            assert(words_of(rest) == seq![t.take(b - a)] + words_of(s@.skip(b as int)));
            assert(views(words@) + words_of(s@.skip(b as int)) =~= views(before) + words_of(rest));
        }
        i = b;
    }
    words
}

/// `s` with every leading copy of `p` removed (`str::trim_start_matches`).
pub open spec fn strip_prefixes(s: Seq<char>, p: Seq<char>) -> Seq<char>
    decreases s.len(),
{
    if p.len() > 0 && has_prefix(s, p) {
        strip_prefixes(s.skip(p.len() as int), p)
    } else {
        s
    }
}

/// `s` with every trailing copy of `p` removed (`str::trim_end_matches`).
pub open spec fn strip_suffixes(s: Seq<char>, p: Seq<char>) -> Seq<char>
    decreases s.len(),
{
    if p.len() > 0 && crate::text::has_suffix(s, p) {
        strip_suffixes(s.take(s.len() - p.len()), p)
    } else {
        s
    }
}

/// `s` with every leading and trailing `c` removed (`str::trim_matches`).
pub open spec fn strip_char(s: Seq<char>, c: char) -> Seq<char> {
    strip_suffixes(strip_prefixes(s, seq![c]), seq![c])
}

/// Removes every leading copy of `p` (`str::trim_start_matches`).
pub fn trim_start_matches(s: &str, p: &str) -> (r: String)
    ensures
        r@ == strip_prefixes(s@, p@),
{
    let n = s.unicode_len();
    let m = p.unicode_len();
    if m == 0 {
        return s.to_owned();
    }
    let mut cur: String = s.to_owned();
    let mut len = n;
    while len >= m && starts_with(cur.as_str(), p)
        invariant
            m == p@.len(),
            m > 0,
            len == cur@.len(),
            strip_prefixes(cur@, p@) == strip_prefixes(s@, p@),
        decreases len,
    {
        let next = cur.as_str().substring_char(m, len).to_owned();
        proof {
            assert(next@ =~= cur@.skip(m as int));
        }
        cur = next;
        len = len - m;
    }
    cur
}

/// Removes every trailing copy of `p` (`str::trim_end_matches`).
pub fn trim_end_matches(s: &str, p: &str) -> (r: String)
    ensures
        r@ == strip_suffixes(s@, p@),
{
    let n = s.unicode_len();
    let m = p.unicode_len();
    if m == 0 {
        return s.to_owned();
    }
    let mut cur: String = s.to_owned();
    let mut len = n;
    while len >= m && crate::text::ends_with(cur.as_str(), p)
        invariant
            m == p@.len(),
            m > 0,
            len == cur@.len(),
            strip_suffixes(cur@, p@) == strip_suffixes(s@, p@),
        decreases len,
    {
        let next = cur.as_str().substring_char(0, len - m).to_owned();
        proof {
            assert(next@ =~= cur@.take(len - m));
        }
        cur = next;
        len = len - m;
    }
    cur
}

/// Removes every leading and trailing `c` (`str::trim_matches`).
pub fn trim_matches(s: &str, c: char) -> (r: String)
    ensures
        r@ == strip_char(s@, c),
{
    let one = string_of(&[c]);
    proof {
        assert(one@ =~= seq![c]);
    }
    let a = trim_start_matches(s, one.as_str());
    trim_end_matches(a.as_str(), one.as_str())
}

/// The value of a run of decimal digits.
pub open spec fn digits_value(d: Seq<char>) -> nat
    decreases d.len(),
{
    if d.len() == 0 {
        0
    } else {
        digits_value(d.drop_last()) * 10 + ((d.last() as u32) - ('0' as u32)) as nat
    }
}

/// `c` is an ASCII decimal digit.
pub open spec fn is_digit(c: char) -> bool {
    '0' <= c && c <= '9'
}

/// `s` without the `+` sign it may start with.
pub open spec fn unsigned_digits(s: Seq<char>) -> Seq<char> {
    if s.len() > 0 && s[0] == '+' {
        s.drop_first()
    } else {
        s
    }
}

/// The unsigned number `s` denotes (`str::parse` for an unsigned integer
/// type whose largest value is `max`): an optional `+`, then one or more
/// ASCII digits whose value is at most `max`.
pub open spec fn parse_unsigned(s: Seq<char>, max: nat) -> Option<nat> {
    let d = unsigned_digits(s);
    if d.len() == 0 {
        None
    } else if exists|i: int| 0 <= i < d.len() && !is_digit(#[trigger] d[i]) {
        None
    } else if digits_value(d) > max {
        None
    } else {
        Some(digits_value(d))
    }
}

/// Parses an unsigned number no larger than `max` (`str::parse::<u64>`,
/// `u32` or `usize` with the matching `max`).
pub fn parse_unsigned_exec(s: &str, max: u64) -> (r: Option<u64>)
    ensures
        match parse_unsigned(s@, max as nat) {
            Some(v) => r == Some(v as u64),
            None => r is None,
        },
        r matches Some(x) ==> x <= max,
        parse_unsigned(s@, max as nat) matches Some(v) ==> v <= max,
{
    let cs = chars_of(s);
    let n = cs.len();
    let start: usize = if n > 0 && cs[0] == '+' { 1 } else { 0 };
    let ghost d = unsigned_digits(s@);
    proof {
        assert(d =~= s@.skip(start as int));
    }
    if start == n {
        return None;
    }
    let mut v: u64 = 0;
    let mut i = start;
    proof {
        assert(d.take(0) =~= Seq::<char>::empty());
    }
    while i < n
        invariant
            cs@ == s@,
            n == cs@.len(),
            start <= i <= n,
            d == s@.skip(start as int),
            d == unsigned_digits(s@),
            forall|k: int| 0 <= k < i - start ==> is_digit(#[trigger] d[k]),
            v as nat == digits_value(d.take(i - start)),
            v <= max,
        decreases n - i,
    {
        let c = cs[i];
        if !('0' <= c && c <= '9') {
            proof {
                assert(d.len() == n - start);
                assert(d[i - start] == c);
                assert(!is_digit(d[i - start]));
                assert(exists|k: int| 0 <= k < d.len() && !is_digit(#[trigger] d[k]));
            }
            return None;
        }
        let digit = (c as u32 - '0' as u32) as u64;
        proof {
            assert(d.take(i - start + 1).drop_last() =~= d.take(i - start));
            assert(d.take(i - start + 1).last() == c);
        }
        if v > max / 10 || (v == max / 10 && digit > max % 10) {
            proof {
                assert(v * 10 + digit > max) by (nonlinear_arith)
                    requires
                        v > max / 10 || (v == max / 10 && digit > max % 10);
                assert(d.len() == n - start);
                assert(digits_value(d.take(i - start + 1)) == v * 10 + digit);
                lemma_digits_grow(d, i - start + 1);
            }
            return None;
        }
        proof {
            assert(v * 10 + digit <= max) by (nonlinear_arith)
                requires
                    v <= max / 10,
                    v < max / 10 || digit <= max % 10,
                    digit < 10;
        }
        v = v * 10 + digit;
        i += 1;
    }
    proof {
        assert(d.take(n - start) =~= d);
    }
    Some(v)
}

/// Appending digits never makes the value smaller.
proof fn lemma_digits_grow(d: Seq<char>, k: int)
    requires
        0 <= k <= d.len(),
    ensures
        digits_value(d.take(k)) <= digits_value(d),
    decreases d.len() - k,
{
    if k < d.len() {
        lemma_digits_grow(d, k + 1);
        assert(d.take(k + 1).drop_last() =~= d.take(k));
    } else {
        assert(d.take(k) =~= d);
    }
}

/// A found occurrence lies within `s`.
pub proof fn lemma_first_at_bound(s: Seq<char>, needle: Seq<char>)
    ensures
        first_at(s, needle) >= 0 ==> occurs_at(s, needle, first_at(s, needle)),
{
    if exists|i: int| #[trigger] occurs_at(s, needle, i) {
        let i = choose|i: int| #[trigger] occurs_at(s, needle, i);
        lemma_min_occurrence(s, needle, i);
    }
}

/// When `needle` occurs at `i` and nowhere before, `i` is its first
/// position; when it occurs nowhere, the first position is `-1`.
pub proof fn lemma_first_at_is(s: Seq<char>, needle: Seq<char>, i: int)
    ensures
        occurs_at(s, needle, i) && (forall|j: int| 0 <= j < i ==> !occurs_at(s, needle, j)) ==> first_at(s, needle) == i,
        (forall|j: int| !#[trigger] occurs_at(s, needle, j)) ==> first_at(s, needle) == -1,
{
    if occurs_at(s, needle, i) && (forall|j: int| 0 <= j < i ==> !occurs_at(s, needle, j)) {
        let m = first_at(s, needle);
        lemma_first_at_bound(s, needle);
        assert(occurs_at(s, needle, m));
        if m < i {
            assert(!occurs_at(s, needle, m));
        }
        if i < m {
            assert(!occurs_at(s, needle, i));
        }
    }
}

/// An occurring needle has a first occurrence.
proof fn lemma_min_occurrence(s: Seq<char>, needle: Seq<char>, i: int)
    requires
        occurs_at(s, needle, i),
    ensures
        exists|m: int| #[trigger] occurs_at(s, needle, m) && forall|j: int| 0 <= j < m ==> !occurs_at(s, needle, j),
    decreases i,
{
    if exists|j: int| 0 <= j < i && #[trigger] occurs_at(s, needle, j) {
        let j = choose|j: int| 0 <= j < i && #[trigger] occurs_at(s, needle, j);
        lemma_min_occurrence(s, needle, j);
    } else {
        assert(forall|j: int| 0 <= j < i ==> !occurs_at(s, needle, j));
    }
}

} // verus!
