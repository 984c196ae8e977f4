use itertools::Itertools;
use vstd::prelude::*;

verus! {

/// `char::is_whitespace`: the Unicode White_Space property.
pub open spec fn is_ws(c: char) -> bool {
    c == '\t' || c == '\n' || c == '\u{0B}' || c == '\u{0C}' || c == '\r' || c == ' ' || c
        == '\u{85}' || c == '\u{A0}' || c == '\u{1680}' || ('\u{2000}' <= c && c <= '\u{200A}')
        || c == '\u{2028}' || c == '\u{2029}' || c == '\u{202F}' || c == '\u{205F}' || c
        == '\u{3000}'
}

pub fn is_whitespace(c: char) -> (r: bool)
    ensures
        r == is_ws(c),
{
    c == '\t' || c == '\n' || c == '\u{0B}' || c == '\u{0C}' || c == '\r' || c == ' ' || c
        == '\u{85}' || c == '\u{A0}' || c == '\u{1680}' || ('\u{2000}' <= c && c <= '\u{200A}')
        || c == '\u{2028}' || c == '\u{2029}' || c == '\u{202F}' || c == '\u{205F}' || c
        == '\u{3000}'
}

pub open spec fn trim_start(s: Seq<char>) -> Seq<char>
    decreases s.len(),
{
    if s.len() > 0 && is_ws(s[0]) {
        trim_start(s.drop_first())
    } else {
        s
    }
}

pub open spec fn trim_end(s: Seq<char>) -> Seq<char>
    decreases s.len(),
{
    if s.len() > 0 && is_ws(s.last()) {
        trim_end(s.drop_last())
    } else {
        s
    }
}

pub open spec fn trim(s: Seq<char>) -> Seq<char> {
    trim_end(trim_start(s))
}

pub open spec fn starts_with(s: Seq<char>, k: Seq<char>) -> bool {
    k.len() <= s.len() && s.subrange(0, k.len() as int) == k
}

pub open spec fn ends_with(s: Seq<char>, k: Seq<char>) -> bool {
    k.len() <= s.len() && s.subrange(s.len() - k.len(), s.len() as int) == k
}

/// The parts with `sep` between each two of them.
pub open spec fn joined(parts: Seq<Seq<char>>, sep: Seq<char>) -> Seq<char>
    decreases parts.len(),
{
    if parts.len() == 0 {
        Seq::empty()
    } else if parts.len() == 1 {
        parts[0]
    } else {
        joined(parts.drop_last(), sep) + sep + parts.last()
    }
}

/// The texts of a sequence of strings
pub open spec fn string_views(v: Seq<String>) -> Seq<Seq<char>> {
    v.map_values(|l: String| l@)
}

/// Index of the first newline of a text; -1 if it has none
pub open spec fn first_newline(s: Seq<char>) -> int
    decreases s.len(),
{
    if s.len() == 0 {
        -1
    } else if s[0] == '\n' {
        0
    } else {
        let r = first_newline(s.drop_first());
        if r < 0 {
            -1
        } else {
            r + 1
        }
    }
}

/// A line without the carriage return of its `\r\n` ending
pub open spec fn strip_cr(l: Seq<char>) -> Seq<char> {
    if l.len() > 0 && l.last() == '\r' {
        l.drop_last()
    } else {
        l
    }
}

/// The lines of a text: split after each `\n`, which is dropped with a `\r`
/// before it; a last line without a newline is kept as it is, and a text
/// ending in a newline has no empty last line.
pub open spec fn lines_of(s: Seq<char>) -> Seq<Seq<char>>
    decreases s.len(),
{
    let i = first_newline(s);
    if s.len() == 0 {
        Seq::empty()
    } else if 0 <= i < s.len() {
        seq![strip_cr(s.subrange(0, i))] + lines_of(s.subrange(i + 1, s.len() as int))
    } else {
        seq![s]
    }
}

/// Relies on `str::lines`: splits the text at each line ending, `\n` or
/// `\r\n`, the last one optional.
#[verifier::external_body]
pub fn split_lines(s: &str) -> (r: Vec<String>)
    ensures
        string_views(r@) == lines_of(s@),
{
    s.lines().map(String::from).collect()
}

/// Relies on `str::chars`: the characters of the text, in order.
#[verifier::external_body]
pub fn chars_of(s: &str) -> (r: Vec<char>)
    ensures
        r@ == s@,
{
    s.chars().collect()
}

pub open spec fn decimal_chars() -> Seq<char> {
    seq!['0', '1', '2', '3', '4', '5', '6', '7', '8', '9']
}

/// Decimal digits of a number, without leading zeros
pub open spec fn decimal_digits(n: nat) -> Seq<char>
    decreases n,
{
    if n < 10 {
        seq![decimal_chars()[n as int]]
    } else {
        decimal_digits(n / 10).push(decimal_chars()[(n % 10) as int])
    }
}

pub(crate) fn push_decimal(out: &mut Vec<char>, n: usize)
    ensures
        final(out)@ == old(out)@ + decimal_digits(n as nat),
    decreases n,
{
    let digits = ['0', '1', '2', '3', '4', '5', '6', '7', '8', '9'];
    assert(digits@ =~= decimal_chars());
    if n >= 10 {
        push_decimal(out, n / 10);
    }
    out.push(digits[n % 10]);
    assert(final(out)@ =~= old(out)@ + decimal_digits(n as nat));
}

/// Relies on `String::from_iter`: the characters, in order.
#[verifier::external_body]
pub(crate) fn string_of(chars: &Vec<char>) -> (r: String)
    ensures
        r@ == chars@,
{
    chars.iter().collect()
}

/// Relies on `Itertools::join`: the parts, formatted as they are, with the
/// separator between each two of them.
#[verifier::external_body]
pub fn join(parts: &Vec<String>, sep: &str) -> (r: String)
    ensures
        r@ == joined(string_views(parts@), sep@),
{
    parts.iter().join(sep)
}

proof fn lemma_trim_start_skip(s: Seq<char>, i: int)
    requires
        0 <= i < s.len(),
        is_ws(s[i]),
    ensures
        trim_start(s.subrange(i, s.len() as int)) == trim_start(s.subrange(i + 1, s.len() as int)),
{
    assert(s.subrange(i, s.len() as int).drop_first() =~= s.subrange(i + 1, s.len() as int));
}

proof fn lemma_trim_end_skip(s: Seq<char>, j: int)
    requires
        0 < j <= s.len(),
        is_ws(s[j - 1]),
    ensures
        trim_end(s.subrange(0, j)) == trim_end(s.subrange(0, j - 1)),
{
    assert(s.subrange(0, j).drop_last() =~= s.subrange(0, j - 1));
}

/// Bounds `(a, b)` such that `s[a..b]` is `s` with surrounding whitespace removed.
pub fn trim_bounds(s: &[char]) -> (r: (usize, usize))
    ensures
        r.0 <= r.1 <= s@.len(),
        trim_start(s@) == s@.subrange(r.0 as int, s@.len() as int),
        trim(s@) == s@.subrange(r.0 as int, r.1 as int),
{
    let mut a: usize = 0;
    assert(s@.subrange(0, s@.len() as int) =~= s@);
    while a < s.len() && is_whitespace(s[a])
        invariant
            a <= s@.len(),
            trim_start(s@) == trim_start(s@.subrange(a as int, s@.len() as int)),
        decreases s@.len() - a,
    {
        proof {
            lemma_trim_start_skip(s@, a as int);
        }
        a = a + 1;
    }
    let ghost t = s@.subrange(a as int, s@.len() as int);
    assert(trim_start(t) == t);
    let mut b: usize = s.len();
    assert(t.subrange(0, t.len() as int) =~= t);
    while b > a && is_whitespace(s[b - 1])
        invariant
            a <= b <= s@.len(),
            t == s@.subrange(a as int, s@.len() as int),
            trim_end(t) == trim_end(t.subrange(0, b - a)),
        decreases b,
    {
        proof {
            lemma_trim_end_skip(t, (b - a) as int);
        }
        b = b - 1;
    }
    assert(t.subrange(0, b - a) =~= s@.subrange(a as int, b as int));
    (a, b)
}

/// Whether `s[from..to]` ends with `k`.
pub fn range_ends_with(s: &[char], from: usize, to: usize, k: &[char]) -> (r: bool)
    requires
        from <= to <= s@.len(),
    ensures
        r == ends_with(s@.subrange(from as int, to as int), k@),
{
    if k.len() > to - from {
        return false;
    }
    let start = to - k.len();
    let mut i: usize = 0;
    while i < k.len()
        invariant
            start + k@.len() == to,
            from <= start,
            to <= s@.len(),
            i <= k@.len(),
            forall|j: int| 0 <= j < i ==> s@[start + j] == k@[j],
        decreases k@.len() - i,
    {
        if s[start + i] != k[i] {
            assert(s@.subrange(from as int, to as int).subrange(
                (to - from) - k@.len(),
                (to - from) as int,
            )[i as int] != k@[i as int]);
            return false;
        }
        i = i + 1;
    }
    assert(s@.subrange(from as int, to as int).subrange((to - from) - k@.len(), (to - from) as int)
        =~= k@);
    true
}

/// Whether `s` starts with `k`.
pub fn slice_starts_with(s: &[char], k: &[char]) -> (r: bool)
    ensures
        r == starts_with(s@, k@),
{
    if k.len() > s.len() {
        return false;
    }
    let mut i: usize = 0;
    while i < k.len()
        invariant
            k@.len() <= s@.len(),
            i <= k@.len(),
            forall|j: int| 0 <= j < i ==> s@[j] == k@[j],
        decreases k@.len() - i,
    {
        if s[i] != k[i] {
            assert(s@.subrange(0, k@.len() as int)[i as int] != k@[i as int]);
            return false;
        }
        i = i + 1;
    }
    assert(s@.subrange(0, k@.len() as int) =~= k@);
    true
}

/// Index of the first `c` in `s`, if any.
pub open spec fn first_index(s: Seq<char>, c: char, i: int) -> bool {
    0 <= i < s.len() && s[i] == c && forall|j: int| 0 <= j < i ==> s[j] != c
}

pub fn find_char(s: &[char], c: char) -> (r: Option<usize>)
    ensures
        r matches Some(i) ==> first_index(s@, c, i as int),
        r is None ==> forall|j: int| 0 <= j < s@.len() ==> s@[j] != c,
{
    let mut i: usize = 0;
    while i < s.len()
        invariant
            i <= s@.len(),
            forall|j: int| 0 <= j < i ==> s@[j] != c,
        decreases s@.len() - i,
    {
        if s[i] == c {
            return Some(i);
        }
        i = i + 1;
    }
    None
}

} // verus!
