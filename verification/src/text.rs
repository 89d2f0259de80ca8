//! Character-level string helpers shared by every module that builds or
//! reads command lines and reports.

use vstd::prelude::*;

verus! {

/// Appends one character to a `String` (`String::push`).
#[verifier::external_body]
pub(crate) fn push_char(s: &mut String, c: char)
    ensures
        final(s)@ == old(s)@.push(c),
{
    s.push(c);
}

/// The characters of `s`, in order.
pub fn chars_of(s: &str) -> (v: Vec<char>)
    ensures
        v@ == s@,
{
    let n = s.unicode_len();
    let mut v: Vec<char> = Vec::new();
    let mut i: usize = 0;
    while i < n
        invariant
            n == s@.len(),
            i <= n,
            v@ == s@.subrange(0, i as int),
        decreases n - i,
    {
        v.push(s.get_char(i));
        i += 1;
    }
    v
}

/// Builds a `String` holding exactly the characters of `cs`.
pub fn string_of(cs: &[char]) -> (s: String)
    ensures
        s@ == cs@,
{
    let mut s = String::new();
    let mut i: usize = 0;
    while i < cs.len()
        invariant
            i <= cs@.len(),
            s@ == cs@.subrange(0, i as int),
        decreases cs@.len() - i,
    {
        push_char(&mut s, cs[i]);
        i += 1;
    }
    s
}

/// Character-wise equality of two string slices.
pub fn str_eq(a: &str, b: &str) -> (r: bool)
    ensures
        r == (a@ == b@),
{
    let x = a.to_owned();
    let y = b.to_owned();
    x == y
}

/// A copy of an optional string.
pub fn clone_opt(o: &Option<String>) -> (r: Option<String>)
    ensures
        r == *o,
{
    match o {
        Some(s) => Some(s.clone()),
        None => None,
    }
}

/// A copy of a list of strings.
pub fn clone_strings(v: &Vec<String>) -> (r: Vec<String>)
    ensures
        r@ == v@,
{
    let mut r: Vec<String> = Vec::new();
    let mut i: usize = 0;
    while i < v.len()
        invariant
            i <= v@.len(),
            r@ == v@.subrange(0, i as int),
        decreases v@.len() - i,
    {
        r.push(v[i].clone());
        i += 1;
    }
    r
}

/// A copy of an optional list of strings.
pub fn clone_opt_strings(o: &Option<Vec<String>>) -> (r: Option<Vec<String>>)
    ensures
        r matches Some(v) ==> (*o matches Some(w) && v@ == w@),
        r is None <==> o is None,
{
    match o {
        Some(v) => Some(clone_strings(v)),
        None => None,
    }
}

/// The views of a sequence of strings.
pub open spec fn views(v: Seq<String>) -> Seq<Seq<char>> {
    v.map_values(|s: String| s@)
}

/// The view of an optional string.
pub open spec fn opt_view(o: Option<String>) -> Option<Seq<char>> {
    match o {
        Some(s) => Some(s@),
        None => None,
    }
}

/// ASCII lower-casing of one character; other characters are unchanged.
pub open spec fn ascii_lower(c: char) -> char {
    if 'A' <= c && c <= 'Z' {
        ((c as u32) + 32) as char
    } else {
        c
    }
}

/// Every character of `s` is ASCII.
pub open spec fn all_ascii(s: Seq<char>) -> bool {
    forall|i: int| 0 <= i < s.len() ==> (s[i] as u32) < 128
}

/// ASCII lower-casing of every character of `s`.
pub open spec fn ascii_lower_seq(s: Seq<char>) -> Seq<char> {
    s.map_values(|c: char| ascii_lower(c))
}

/// Exec form of [`ascii_lower`].
pub fn to_ascii_lower(c: char) -> (r: char)
    ensures
        r == ascii_lower(c),
{
    if 'A' <= c && c <= 'Z' {
        ((c as u8) + 32) as char
    } else {
        c
    }
}

/// `a` and `b` are equal when ASCII letters are compared without regard to
/// case (`str::eq_ignore_ascii_case`).
pub fn eq_ignore_ascii_case(a: &str, b: &str) -> (r: bool)
    ensures
        r == (ascii_lower_seq(a@) == ascii_lower_seq(b@)),
{
    let x = chars_of(a);
    let y = chars_of(b);
    if x.len() != y.len() {
        proof {
            assert(ascii_lower_seq(a@).len() != ascii_lower_seq(b@).len());
        }
        return false;
    }
    let mut i: usize = 0;
    while i < x.len()
        invariant
            x@ == a@,
            y@ == b@,
            x@.len() == y@.len(),
            i <= x@.len(),
            forall|j: int| 0 <= j < i ==> ascii_lower(#[trigger] x@[j]) == ascii_lower(y@[j]),
        decreases x@.len() - i,
    {
        if to_ascii_lower(x[i]) != to_ascii_lower(y[i]) {
            proof {
                assert(ascii_lower_seq(a@)[i as int] != ascii_lower_seq(b@)[i as int]);
            }
            return false;
        }
        i += 1;
    }
    proof {
        assert(ascii_lower_seq(a@) =~= ascii_lower_seq(b@));
    }
    true
}

/// `parts` joined with `sep` between neighbours (`[a, b, c]` gives `a sep b sep c`).
pub open spec fn joined(parts: Seq<Seq<char>>, sep: Seq<char>) -> Seq<char>
    decreases parts.len(),
{
    if parts.len() == 0 {
        Seq::empty()
    } else if parts.len() == 1 {
        parts[0]
    } else {
        joined(parts.drop_last(), sep) + sep + parts.last()
    }
}

/// Joins `parts` with `sep` (`slice::join`).
pub fn join(parts: &Vec<String>, sep: &str) -> (r: String)
    ensures
        r@ == joined(views(parts@), sep@),
{
    let mut r = String::new();
    let mut i: usize = 0;
    while i < parts.len()
        invariant
            i <= parts@.len(),
            r@ == joined(views(parts@).take(i as int), sep@),
        decreases parts@.len() - i,
    {
        proof {
            let t = views(parts@).take(i as int + 1);
            assert(t.drop_last() =~= views(parts@).take(i as int));
            if i == 0 {
                assert(views(parts@).take(0) =~= Seq::<Seq<char>>::empty());
            }
        }
        if i > 0 {
            r.append(sep);
        }
        r.append(parts[i].as_str());
        i += 1;
    }
    proof {
        assert(views(parts@).take(parts@.len() as int) =~= views(parts@));
    }
    r
}

/// The decimal digit character for `d < 10`.
pub open spec fn digit_char(d: nat) -> char {
    (('0' as u32) + d) as char
}

/// The decimal representation of `n`, without leading zeros (`0` is `"0"`).
pub open spec fn decimal(n: nat) -> Seq<char>
    decreases n,
{
    if n < 10 {
        seq![digit_char(n)]
    } else {
        decimal(n / 10).push(digit_char(n % 10))
    }
}

/// Appends the decimal representation of `n` to `s`.
pub fn push_decimal(s: &mut String, n: u64)
    ensures
        final(s)@ == old(s)@ + decimal(n as nat),
    decreases n,
{
    if n >= 10 {
        push_decimal(s, n / 10);
    }
    let d = (n % 10) as u32;
    let c = char_from_digit(d);
    push_char(s, c);
    proof {
        if n < 10 {
            assert(old(s)@ + decimal(n as nat) =~= old(s)@.push(digit_char(n as nat)));
        }
    }
}

/// The digit character of `d < 10`.
fn char_from_digit(d: u32) -> (c: char)
    requires
        d < 10,
    ensures
        c == digit_char(d as nat),
{
    if d == 0 { '0' } else if d == 1 { '1' } else if d == 2 { '2' } else if d == 3 { '3' } else if d == 4 {
        '4'
    } else if d == 5 { '5' } else if d == 6 { '6' } else if d == 7 { '7' } else if d == 8 { '8' } else { '9' }
}

/// The decimal representation of `n` as a new string (`u64::to_string`).
pub fn decimal_string(n: u64) -> (s: String)
    ensures
        s@ == decimal(n as nat),
{
    let mut s = String::new();
    push_decimal(&mut s, n);
    proof {
        assert(Seq::<char>::empty() + decimal(n as nat) =~= decimal(n as nat));
    }
    s
}

/// Number of bytes of the UTF-8 encoding of `s` (`str::len`).
pub open spec fn byte_len(s: Seq<char>) -> nat {
    vstd::utf8::encode_utf8(s).len()
}

/// The UTF-8 encoding of a concatenation is the concatenation of the encodings.
pub proof fn lemma_byte_len_concat(a: Seq<char>, b: Seq<char>)
    ensures
        byte_len(a + b) == byte_len(a) + byte_len(b),
    decreases a.len(),
{
    if a.len() > 0 {
        lemma_byte_len_concat(a.drop_first(), b);
        assert((a + b).drop_first() =~= a.drop_first() + b);
        assert((a + b)[0] == a[0]);
    } else {
        assert(a + b =~= b);
    }
}

/// Every character takes between one and four bytes.
pub proof fn lemma_char_width(c: char)
    ensures
        1 <= byte_len(seq![c]) <= 4,
        byte_len(seq![c]) == vstd::utf8::encode_scalar(c as u32).len(),
{
    broadcast use vstd::utf8::char_is_scalar;
    let u = c as u32;
    assert(seq![c].drop_first() =~= Seq::<char>::empty());
    assert(vstd::utf8::encode_utf8(seq![c].drop_first()) == Seq::<u8>::empty());
    assert(vstd::utf8::encode_utf8(seq![c]) == vstd::utf8::encode_scalar(u) + vstd::utf8::encode_utf8(seq![c].drop_first()));
    assert(vstd::utf8::encode_utf8(seq![c]) =~= vstd::utf8::encode_scalar(u));
}

/// Byte lengths of prefixes grow strictly with the number of characters.
pub proof fn lemma_prefix_bytes_increase(s: Seq<char>, i: int, j: int)
    requires
        0 <= i < j <= s.len(),
    ensures
        byte_len(s.take(i)) < byte_len(s.take(j)),
    decreases j - i,
{
    let t = s.take(j - 1);
    assert(s.take(j) =~= t + seq![s[j - 1]]);
    lemma_byte_len_concat(t, seq![s[j - 1]]);
    lemma_char_width(s[j - 1]);
    if i < j - 1 {
        lemma_prefix_bytes_increase(s, i, j - 1);
    }
}

/// The number of bytes `c` takes in UTF-8 (`char::len_utf8`).
pub fn utf8_width(c: char) -> (w: usize)
    ensures
        w == byte_len(seq![c]),
{
    proof {
        lemma_char_width(c);
        broadcast use vstd::utf8::char_is_scalar;
    }
    let u = c as u32;
    if u <= 0x7f {
        1
    } else if u <= 0x7ff {
        2
    } else if u <= 0xffff {
        3
    } else {
        4
    }
}

/// `s` has a character boundary `b` bytes in, or is shorter than that.
pub open spec fn cut_ok(s: Seq<char>, b: nat) -> bool {
    byte_len(s) >= b ==> exists|k: int| 0 <= k <= s.len() && #[trigger] byte_len(s.take(k)) == b
}

/// `&s[..b]` when `s` is at least `b` bytes long, else `s` itself.
pub open spec fn cut_bytes(s: Seq<char>, b: nat) -> Seq<char> {
    if byte_len(s) >= b {
        s.take(choose|k: int| 0 <= k <= s.len() && #[trigger] byte_len(s.take(k)) == b)
    } else {
        s
    }
}

/// The first `b` bytes of `s`, or all of `s` when it is shorter: the
/// `if s.len() >= b { &s[..b] } else { s }` idiom.
pub fn cut_to_bytes(s: &str, b: u32) -> (r: &str)
    requires
        cut_ok(s@, b as nat),
    ensures
        r@ == cut_bytes(s@, b as nat),
{
    let n = s.unicode_len();
    let mut i: usize = 0;
    let mut bytes: u64 = 0;
    proof {
        assert(s@.take(0) =~= Seq::<char>::empty());
    }
    while i < n && bytes < b as u64
        invariant
            n == s@.len(),
            0 <= i <= n,
            bytes == byte_len(s@.take(i as int)),
            i > 0 ==> byte_len(s@.take(i as int - 1)) < b,
        decreases n - i,
    {
        let c = s.get_char(i);
        let w = utf8_width(c);
        proof {
            lemma_char_width(c);
            assert(s@.take(i as int + 1) =~= s@.take(i as int) + seq![c]);
            lemma_byte_len_concat(s@.take(i as int), seq![c]);
            assert(s@.take(i as int + 1 - 1) =~= s@.take(i as int));
        }
        bytes = bytes + w as u64;
        i += 1;
    }
    if bytes >= b as u64 {
        proof {
            assert(s@.take(n as int) =~= s@);
            if i < n {
                lemma_prefix_bytes_increase(s@, i as int, n as int);
            }
            assert(byte_len(s@) >= b);
            let k = choose|k: int| 0 <= k <= s@.len() && #[trigger] byte_len(s@.take(k)) == b;
            if k < i {
                if k < i - 1 {
                    lemma_prefix_bytes_increase(s@, k, i as int - 1);
                }
            }
            if k > i {
                lemma_prefix_bytes_increase(s@, i as int, k);
            }
            assert(k == i);
            assert(s@.subrange(0, i as int) =~= s@.take(k));
        }
        s.substring_char(0, i)
    } else {
        proof {
            assert(i == n);
            assert(s@.take(n as int) =~= s@);
        }
        s
    }
}

/// `a` sorts before `b`: lexicographic order by character code, a proper
/// prefix first (the order of `str`'s `Ord`, which compares the UTF-8 bytes).
pub open spec fn seq_lt(a: Seq<char>, b: Seq<char>) -> bool
    decreases a.len(),
{
    if a.len() == 0 {
        b.len() > 0
    } else if b.len() == 0 {
        false
    } else if a[0] != b[0] {
        (a[0] as u32) < (b[0] as u32)
    } else {
        seq_lt(a.drop_first(), b.drop_first())
    }
}

/// Two sequences with equal heads and equal tails are equal.
proof fn lemma_head_tail_eq(a: Seq<char>, b: Seq<char>)
    requires
        a.len() > 0,
        b.len() > 0,
        a[0] == b[0],
        a.drop_first() == b.drop_first(),
    ensures
        a == b,
{
    assert(a.drop_first().len() == a.len() - 1);
    assert(b.drop_first().len() == b.len() - 1);
    assert(a.len() == b.len());
    assert forall|i: int| 0 <= i < a.len() implies a[i] == b[i] by {
        if i > 0 {
            assert(a[i] == a.drop_first()[i - 1]);
            assert(b[i] == b.drop_first()[i - 1]);
        }
    }
    assert(a =~= b);
}

/// [`seq_lt`] is irreflexive and asymmetric.
pub proof fn lemma_seq_lt_asym(a: Seq<char>, b: Seq<char>)
    ensures
        !seq_lt(a, a),
        seq_lt(a, b) ==> !seq_lt(b, a),
    decreases a.len(),
{
    if a.len() > 0 {
        lemma_seq_lt_asym(a.drop_first(), a.drop_first());
        if b.len() > 0 {
            lemma_seq_lt_asym(a.drop_first(), b.drop_first());
        }
    }
}

/// [`seq_lt`] relates any two different sequences one way or the other.
pub proof fn lemma_seq_lt_total(a: Seq<char>, b: Seq<char>)
    ensures
        a != b ==> seq_lt(a, b) || seq_lt(b, a),
    decreases a.len(),
{
    broadcast use vstd::utf8::char_u32_cast;
    if a.len() > 0 && b.len() > 0 {
        lemma_seq_lt_total(a.drop_first(), b.drop_first());
        if a[0] == b[0] && a.drop_first() == b.drop_first() {
            lemma_head_tail_eq(a, b);
        }
        if a[0] != b[0] && (a[0] as u32) == (b[0] as u32) {
            vstd::utf8::char_u32_cast(a[0], a[0] as u32);
            vstd::utf8::char_u32_cast(b[0], b[0] as u32);
        }
    } else if a.len() == 0 && b.len() == 0 {
        assert(a =~= b);
    }
}

/// [`seq_lt`] is transitive.
pub proof fn lemma_seq_lt_trans(a: Seq<char>, b: Seq<char>, c: Seq<char>)
    requires
        seq_lt(a, b),
        seq_lt(b, c),
    ensures
        seq_lt(a, c),
    decreases a.len(),
{
    if a.len() > 0 && b.len() > 0 && c.len() > 0 && a[0] == b[0] && b[0] == c[0] {
        lemma_seq_lt_trans(a.drop_first(), b.drop_first(), c.drop_first());
    }
}

/// Exec form of [`seq_lt`].
pub fn str_lt(a: &str, b: &str) -> (r: bool)
    ensures
        r == seq_lt(a@, b@),
{
    let x = chars_of(a);
    let y = chars_of(b);
    let mut i: usize = 0;
    proof {
        assert(a@.skip(0) =~= a@);
        assert(b@.skip(0) =~= b@);
    }
    while i < x.len() && i < y.len() && x[i] == y[i]
        invariant
            x@ == a@,
            y@ == b@,
            i <= x@.len(),
            i <= y@.len(),
            seq_lt(a@, b@) == seq_lt(a@.skip(i as int), b@.skip(i as int)),
        decreases x@.len() - i,
    {
        proof {
            let sa = a@.skip(i as int);
            let sb = b@.skip(i as int);
            assert(sa.drop_first() =~= a@.skip(i as int + 1));
            assert(sb.drop_first() =~= b@.skip(i as int + 1));
        }
        i += 1;
    }
    if i == x.len() {
        proof {
            assert(a@.skip(i as int).len() == 0);
        }
        i < y.len()
    } else if i == y.len() {
        false
    } else {
        proof {
            assert(a@.skip(i as int)[0] == x@[i as int]);
            assert(b@.skip(i as int)[0] == y@[i as int]);
        }
        (x[i] as u32) < (y[i] as u32)
    }
}

/// `c` has the Unicode `White_Space` property (`char::is_whitespace`).
pub open spec fn is_ws(c: char) -> bool {
    let u = c as u32;
    (0x09 <= u <= 0x0d) || u == 0x20 || u == 0x85 || u == 0xa0 || u == 0x1680 || (0x2000 <= u
        <= 0x200a) || u == 0x2028 || u == 0x2029 || u == 0x202f || u == 0x205f || u == 0x3000
}

/// Exec form of [`is_ws`].
pub fn is_whitespace(c: char) -> (r: bool)
    ensures
        r == is_ws(c),
{
    let u = c as u32;
    (0x09 <= u && u <= 0x0d) || u == 0x20 || u == 0x85 || u == 0xa0 || u == 0x1680 || (0x2000 <= u
        && u <= 0x200a) || u == 0x2028 || u == 0x2029 || u == 0x202f || u == 0x205f || u == 0x3000
}

/// `s` without its leading and trailing whitespace (`str::trim`): the
/// stretch between the first and the last non-whitespace character.
pub closed spec fn trimmed(s: Seq<char>) -> Seq<char> {
    if forall|i: int| 0 <= i < s.len() ==> is_ws(#[trigger] s[i]) {
        Seq::empty()
    } else {
        let a = choose|a: int| 0 <= a < s.len() && !is_ws(s[a]) && forall|i: int| 0 <= i < a ==> is_ws(#[trigger] s[i]);
        let b = choose|b: int| 0 <= b < s.len() && !is_ws(s[b]) && forall|i: int| b < i < s.len() ==> is_ws(#[trigger] s[i]);
        s.subrange(a, b + 1)
    }
}

/// A string of whitespace only trims to nothing.
pub proof fn lemma_trimmed_blank(s: Seq<char>)
    requires
        forall|i: int| 0 <= i < s.len() ==> is_ws(#[trigger] s[i]),
    ensures
        trimmed(s) == Seq::<char>::empty(),
{
}

/// When `a` is the first and `b` the last non-whitespace position of `s`,
/// `s` trims to the stretch from `a` through `b`.
pub proof fn lemma_trimmed_between(s: Seq<char>, a: int, b: int)
    requires
        0 <= a <= b < s.len(),
        !is_ws(s[a]),
        !is_ws(s[b]),
        forall|i: int| 0 <= i < a ==> is_ws(#[trigger] s[i]),
        forall|i: int| b < i < s.len() ==> is_ws(#[trigger] s[i]),
    ensures
        trimmed(s) == s.subrange(a, b + 1),
{
    let a2 = choose|a2: int| 0 <= a2 < s.len() && !is_ws(s[a2]) && forall|i: int| 0 <= i < a2 ==> is_ws(#[trigger] s[i]);
    let b2 = choose|b2: int| 0 <= b2 < s.len() && !is_ws(s[b2]) && forall|i: int| b2 < i < s.len() ==> is_ws(#[trigger] s[i]);
    assert(!(forall|i: int| 0 <= i < s.len() ==> is_ws(#[trigger] s[i])));
    if a2 < a {
        assert(is_ws(s[a2]));
    }
    if a < a2 {
        assert(is_ws(s[a]));
    }
    if b2 < b {
        assert(is_ws(s[b]));
    }
    if b < b2 {
        assert(is_ws(s[b2]));
    }
}

/// Removes leading and trailing whitespace (`str::trim`).
pub fn trim(s: &str) -> (r: &str)
    ensures
        r@ == trimmed(s@),
{
    let n = s.unicode_len();
    let mut a: usize = 0;
    while a < n && is_whitespace(s.get_char(a))
        invariant
            n == s@.len(),
            a <= n,
            forall|i: int| 0 <= i < a ==> is_ws(#[trigger] s@[i]),
        decreases n - a,
    {
        a += 1;
    }
    if a == n {
        return s.substring_char(0, 0);
    }
    let mut b: usize = n;
    while b > a && is_whitespace(s.get_char(b - 1))
        invariant
            n == s@.len(),
            a < n,
            !is_ws(s@[a as int]),
            a < b <= n,
            forall|i: int| b <= i < n ==> is_ws(#[trigger] s@[i]),
        decreases b,
    {
        b -= 1;
    }
    proof {
        assert(!is_ws(s@[b as int - 1]));
        let a2 = choose|a2: int| 0 <= a2 < s@.len() && !is_ws(s@[a2]) && forall|i: int| 0 <= i < a2 ==> is_ws(#[trigger] s@[i]);
        let b2 = choose|b2: int| 0 <= b2 < s@.len() && !is_ws(s@[b2]) && forall|i: int| b2 < i < s@.len() ==> is_ws(#[trigger] s@[i]);
        if a2 < a {
            assert(is_ws(s@[a2]));
        }
        if a < a2 {
            assert(is_ws(s@[a as int]));
        }
        if b2 < b - 1 {
            assert(is_ws(s@[b as int - 1]));
        }
        if b - 1 < b2 {
            assert(is_ws(s@[b2]));
        }
    }
    s.substring_char(a, b)
}

/// `s` ends with `suffix`.
pub open spec fn has_suffix(s: Seq<char>, suffix: Seq<char>) -> bool {
    suffix.len() <= s.len() && s.skip(s.len() - suffix.len()) == suffix
}

/// `needle` occurs in `s` at position `i`.
pub open spec fn occurs_at(s: Seq<char>, needle: Seq<char>, i: int) -> bool {
    0 <= i && i + needle.len() <= s.len() && s.subrange(i, i + needle.len()) == needle
}

/// `needle` occurs somewhere in `s`.
pub open spec fn has_infix(s: Seq<char>, needle: Seq<char>) -> bool {
    exists|i: int| #[trigger] occurs_at(s, needle, i)
}

/// `s` ends with `suffix` (`str::ends_with`).
pub fn ends_with(s: &str, suffix: &str) -> (r: bool)
    ensures
        r == has_suffix(s@, suffix@),
{
    let n = s.unicode_len();
    let m = suffix.unicode_len();
    if m > n {
        return false;
    }
    let tail = s.substring_char(n - m, n);
    proof {
        assert(tail@ =~= s@.skip(n - m));
    }
    str_eq(tail, suffix)
}

/// `needle` occurs in `s` at character position `i`.
fn occurs_at_exec(s: &Vec<char>, needle: &Vec<char>, i: usize) -> (r: bool)
    requires
        i + needle@.len() <= s@.len(),
    ensures
        r == (s@.subrange(i as int, i + needle@.len()) == needle@),
{
    let mut j: usize = 0;
    proof {
        assert(s@.len() == s.len());
    }
    while j < needle.len()
        invariant
            s@.len() <= usize::MAX,
            i + needle@.len() <= s@.len(),
            j <= needle@.len(),
            forall|k: int| 0 <= k < j ==> s@[i + k] == needle@[k],
        decreases needle@.len() - j,
    {
        if s[i + j] != needle[j] {
            proof {
                assert(s@.subrange(i as int, i + needle@.len())[j as int] != needle@[j as int]);
            }
            return false;
        }
        j += 1;
    }
    proof {
        assert(s@.subrange(i as int, i + needle@.len()) =~= needle@);
    }
    true
}

/// `needle` occurs in `s` (`str::contains`).
pub fn contains_str(s: &str, needle: &str) -> (r: bool)
    ensures
        r == has_infix(s@, needle@),
{
    let x = chars_of(s);
    let y = chars_of(needle);
    if y.len() > x.len() {
        proof {
            if has_infix(s@, needle@) {
                let i = choose|i: int| #[trigger] occurs_at(s@, needle@, i);
            }
        }
        return false;
    }
    let mut i: usize = 0;
    let last = x.len() - y.len();
    loop
        invariant
            x@ == s@,
            y@ == needle@,
            y@.len() <= x@.len(),
            last == x@.len() - y@.len(),
            i <= last,
            forall|k: int| 0 <= k < i ==> !#[trigger] occurs_at(s@, needle@, k),
        ensures
            forall|k: int| 0 <= k <= last ==> !#[trigger] occurs_at(s@, needle@, k),
        decreases last - i,
    {
        if occurs_at_exec(&x, &y, i) {
            proof {
                assert(occurs_at(s@, needle@, i as int));
            }
            return true;
        }
        if i == last {
            break;
        }
        i += 1;
    }
    proof {
        assert forall|k: int| !#[trigger] occurs_at(s@, needle@, k) by {
            if 0 <= k <= last {
            }
        }
    }
    false
}

/// The path `base` joined with the relative component `name` (`Path::join`):
/// `name` alone for an empty base, else one `/` between the two.
pub open spec fn path_joined(base: Seq<char>, name: Seq<char>) -> Seq<char> {
    if base.len() == 0 {
        name
    } else if base.last() == '/' {
        base + name
    } else {
        base + "/"@ + name
    }
}

/// Joins a relative component onto a path (`Path::join`).
pub fn join_path(base: &str, name: &str) -> (r: String)
    requires
        name@.len() > 0,
        name@[0] != '/',
    ensures
        r@ == path_joined(base@, name@),
{
    let n = base.unicode_len();
    let mut r = base.to_owned();
    if n > 0 && base.get_char(n - 1) != '/' {
        r.append("/");
    }
    r.append(name);
    proof {
        reveal_strlit("/");
    }
    r
}

/// The path `base` extended by `name` (`Path::join` on Unix): an absolute
/// `name` replaces the base, a relative one is joined as by [`path_joined`].
pub open spec fn path_pushed(base: Seq<char>, name: Seq<char>) -> Seq<char> {
    if name.len() > 0 && name[0] == '/' {
        name
    } else {
        path_joined(base, name)
    }
}

/// Exec form of [`path_pushed`].
pub fn push_path(base: &str, name: &str) -> (r: String)
    ensures
        r@ == path_pushed(base@, name@),
{
    let m = name.unicode_len();
    if m > 0 && name.get_char(0) == '/' {
        return name.to_owned();
    }
    let n = base.unicode_len();
    let mut r = base.to_owned();
    if n > 0 && base.get_char(n - 1) != '/' {
        r.append("/");
    }
    r.append(name);
    proof {
        reveal_strlit("/");
    }
    r
}

/// The decimal representation of a signed integer: a `-` before the digits
/// of a negative one.
pub open spec fn signed_decimal(n: int) -> Seq<char> {
    if n < 0 {
        seq!['-'] + decimal((-n) as nat)
    } else {
        decimal(n as nat)
    }
}

/// The decimal representation of `n` (`i64::to_string`).
pub fn signed_decimal_string(n: i64) -> (s: String)
    ensures
        s@ == signed_decimal(n as int),
{
    if n < 0 {
        let mut s = String::new();
        push_char(&mut s, '-');
        let m: u64 = if n == i64::MIN { 9223372036854775808u64 } else { (-n) as u64 };
        push_decimal(&mut s, m);
        s
    } else {
        decimal_string(n as u64)
    }
}

/// The last position of `c` in `s`, or `-1`.
pub open spec fn last_pos(s: Seq<char>, c: char) -> int
    decreases s.len(),
{
    if s.len() == 0 {
        -1
    } else if s.last() == c {
        s.len() - 1
    } else {
        last_pos(s.drop_last(), c)
    }
}

/// Exec form of [`last_pos`].
pub fn find_last_char(s: &Vec<char>, c: char) -> (r: Option<usize>)
    ensures
        r matches Some(i) ==> i < s@.len() && i as int == last_pos(s@, c),
        r is None ==> last_pos(s@, c) == -1,
{
    let mut i: usize = s.len();
    proof {
        assert(s@.take(s@.len() as int) =~= s@);
    }
    while i > 0
        invariant
            i <= s@.len(),
            last_pos(s@, c) == last_pos(s@.take(i as int), c),
        decreases i,
    {
        proof {
            assert(s@.take(i as int).drop_last() =~= s@.take(i as int - 1));
        }
        if s[i - 1] == c {
            return Some(i - 1);
        }
        i -= 1;
    }
    None
}

/// The last position of `c` is `-1` or a position holding `c`.
pub proof fn lemma_last_pos(s: Seq<char>, c: char)
    ensures
        -1 <= last_pos(s, c) < s.len(),
        last_pos(s, c) >= 0 ==> s[last_pos(s, c)] == c,
        forall|i: int| last_pos(s, c) < i < s.len() ==> s[i] != c,
    decreases s.len(),
{
    if s.len() > 0 && s.last() != c {
        lemma_last_pos(s.drop_last(), c);
        assert forall|i: int| last_pos(s, c) < i < s.len() implies s[i] != c by {
            if i < s.len() - 1 {
                assert(s[i] == s.drop_last()[i]);
            }
        }
    }
}

/// `path` with the extension of its file name replaced by `ext`
/// (`Path::with_extension`): everything up to the end of the file stem,
/// then `.` and `ext`. The stem is the file name up to its last dot, or the
/// whole name when the only dot opens it or there is none.
pub open spec fn with_extension_text(path: Seq<char>, ext: Seq<char>) -> Seq<char> {
    let start = last_pos(path, '/') + 1;
    let name = path.skip(start);
    let dot = last_pos(name, '.');
    let stem = if dot > 0 {
        dot
    } else {
        name.len() as int
    };
    path.take(start + stem) + if ext.len() > 0 {
        seq!['.'] + ext
    } else {
        Seq::empty()
    }
}

/// A path whose last component is a plain file name: non-empty, neither
/// `.` nor `..`.
pub open spec fn plain_file_path(path: Seq<char>) -> bool {
    let name = path.skip(last_pos(path, '/') + 1);
    name.len() > 0 && name != "."@ && name != ".."@
}

/// Appending characters other than `c` leaves the last position of `c`
/// where it was.
pub proof fn lemma_last_pos_append(a: Seq<char>, n: Seq<char>, c: char)
    requires
        forall|i: int| 0 <= i < n.len() ==> n[i] != c,
    ensures
        last_pos(a + n, c) == last_pos(a, c),
    decreases n.len(),
{
    if n.len() == 0 {
        assert(a + n =~= a);
    } else {
        assert((a + n).drop_last() =~= a + n.drop_last());
        lemma_last_pos_append(a, n.drop_last(), c);
    }
}

/// Joining a plain name without `/` onto any base gives a path whose last
/// component is that name.
pub proof fn lemma_joined_plain(base: Seq<char>, name: Seq<char>)
    requires
        name.len() > 0,
        forall|i: int| 0 <= i < name.len() ==> name[i] != '/',
        name != "."@,
        name != ".."@,
    ensures
        plain_file_path(path_joined(base, name)),
        path_joined(base, name).skip(last_pos(path_joined(base, name), '/') + 1) == name,
{
    let a = if base.len() == 0 {
        Seq::<char>::empty()
    } else if base.last() == '/' {
        base
    } else {
        base + "/"@
    };
    reveal_strlit("/");
    assert(path_joined(base, name) =~= a + name);
    lemma_last_pos_append(a, name, '/');
    if base.len() > 0 && base.last() != '/' {
        assert(a.last() == '/');
    }
    assert(last_pos(a, '/') == a.len() - 1);
    assert((a + name).skip(a.len() as int) =~= name);
}

/// `path` with its extension replaced by `ext` (`Path::with_extension`).
pub fn with_extension(path: &str, ext: &str) -> (r: String)
    requires
        plain_file_path(path@),
    ensures
        r@ == with_extension_text(path@, ext@),
{
    let cs = chars_of(path);
    proof {
        assert(cs@.len() == cs.len());
    }
    let start: usize = match find_last_char(&cs, '/') {
        Some(i) => i + 1,
        None => 0,
    };
    proof {
        lemma_last_pos(path@, '/');
    }
    let name = path.substring_char(start, cs.len());
    let ncs = chars_of(name);
    let stem: usize = match find_last_char(&ncs, '.') {
        Some(d) => if d > 0 { d } else { ncs.len() },
        None => ncs.len(),
    };
    proof {
        assert(name@ =~= path@.skip(start as int));
    }
    let mut r = path.substring_char(0, start + stem).to_owned();
    if ext.unicode_len() > 0 {
        push_char(&mut r, '.');
        r.append(ext);
    }
    proof {
        assert(path@.subrange(0, start + stem) =~= path@.take(start + stem));
        if ext@.len() > 0 {
            assert(r@ =~= path@.take(start + stem) + (seq!['.'] + ext@));
        } else {
            assert(r@ =~= path@.take(start + stem) + Seq::<char>::empty());
        }
    }
    r
}

} // verus!
