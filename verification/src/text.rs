//! Character-level text primitives: whitespace trimming, ASCII case folding,
//! substring search and line splitting, each with a specification over
//! `Seq<char>` and an executable counterpart over character spans.
use vstd::prelude::*;
use vstd::string::*;

verus! {

// ---------------------------------------------------------------------------
// Specifications
// ---------------------------------------------------------------------------

/// The Unicode `White_Space` property, which `char::is_whitespace` and
/// `str::trim` use.
pub open spec fn is_whitespace(c: char) -> bool {
    ||| ('\u{9}' <= c && c <= '\u{d}')
    ||| c == ' '
    ||| c == '\u{85}'
    ||| c == '\u{a0}'
    ||| c == '\u{1680}'
    ||| ('\u{2000}' <= c && c <= '\u{200a}')
    ||| c == '\u{2028}'
    ||| c == '\u{2029}'
    ||| c == '\u{202f}'
    ||| c == '\u{205f}'
    ||| c == '\u{3000}'
}

/// `s` without its leading whitespace.
pub open spec fn trim_start(s: Seq<char>) -> Seq<char>
    decreases s.len(),
{
    if s.len() > 0 && is_whitespace(s[0]) {
        trim_start(s.drop_first())
    } else {
        s
    }
}

/// `s` without its trailing whitespace.
pub open spec fn trim_end(s: Seq<char>) -> Seq<char>
    decreases s.len(),
{
    if s.len() > 0 && is_whitespace(s.last()) {
        trim_end(s.drop_last())
    } else {
        s
    }
}

/// `s` without leading and trailing whitespace (`str::trim`).
pub open spec fn trim(s: Seq<char>) -> Seq<char> {
    trim_end(trim_start(s))
}

/// ASCII lower-casing of one character (`char::to_ascii_lowercase`).
pub open spec fn to_lower(c: char) -> char {
    if 'A' <= c && c <= 'Z' {
        ((c as u32) + 32) as char
    } else {
        c
    }
}

/// ASCII lower-casing of a whole text (`str::to_ascii_lowercase`).
pub open spec fn lowercase(s: Seq<char>) -> Seq<char> {
    s.map_values(|c: char| to_lower(c))
}

/// `p` occurs in `s` starting at position `i`.
pub open spec fn occurs_at(s: Seq<char>, p: Seq<char>, i: int) -> bool {
    0 <= i && i + p.len() <= s.len() && s.subrange(i, i + p.len()) == p
}

/// `s` begins with `p`.
pub open spec fn starts_with(s: Seq<char>, p: Seq<char>) -> bool {
    p.len() <= s.len() && s.take(p.len() as int) == p
}

/// `p` is a substring of `s` (`str::contains`).
pub open spec fn contains(s: Seq<char>, p: Seq<char>) -> bool {
    exists|i: int| occurs_at(s, p, i)
}

/// The position of the first `c` in `s`, if any.
pub open spec fn index_of(s: Seq<char>, c: char) -> Option<int>
    decreases s.len(),
{
    if s.len() == 0 {
        None
    } else if s[0] == c {
        Some(0)
    } else {
        match index_of(s.drop_first(), c) {
            Some(k) => Some(k + 1),
            None => None,
        }
    }
}

/// A line without the carriage return of a `\r\n` ending.
pub open spec fn strip_cr(line: Seq<char>) -> Seq<char> {
    if line.len() > 0 && line.last() == '\r' {
        line.drop_last()
    } else {
        line
    }
}

/// The lines of `s` that follow a partial line `cur` (see `lines`).
pub open spec fn lines_from(s: Seq<char>, cur: Seq<char>) -> Seq<Seq<char>>
    decreases s.len(),
{
    if s.len() == 0 {
        if cur.len() == 0 {
            seq![]
        } else {
            seq![cur]
        }
    } else if s[0] == '\n' {
        seq![strip_cr(cur)] + lines_from(s.drop_first(), seq![])
    } else {
        lines_from(s.drop_first(), cur.push(s[0]))
    }
}

/// The lines of `s` as `str::lines` yields them: split at `\n`, a `\r`
/// before the `\n` dropped, and no empty line after a final `\n`.
pub open spec fn lines(s: Seq<char>) -> Seq<Seq<char>> {
    lines_from(s, seq![])
}

/// The pieces `ls` joined with `sep` between them (`[..].join(sep)`).
pub open spec fn join(ls: Seq<Seq<char>>, sep: Seq<char>) -> Seq<char>
    decreases ls.len(),
{
    if ls.len() == 0 {
        seq![]
    } else if ls.len() == 1 {
        ls[0]
    } else {
        join(ls.drop_last(), sep) + sep + ls.last()
    }
}

/// The texts that a list of spans covers in `v`.
pub open spec fn span_texts(v: Seq<char>, spans: Seq<(usize, usize)>) -> Seq<Seq<char>> {
    spans.map_values(|p: (usize, usize)| v.subrange(p.0 as int, p.1 as int))
}

/// Each span lies inside a text of length `n`.
pub open spec fn spans_within(spans: Seq<(usize, usize)>, n: int) -> bool {
    forall|k: int| 0 <= k < spans.len() ==> #[trigger] spans[k].0 <= spans[k].1 <= n
}

/// The views of a list of strings.
pub open spec fn string_views(v: Seq<String>) -> Seq<Seq<char>> {
    v.map_values(|s: String| s@)
}

// ---------------------------------------------------------------------------
// Lemmas
// ---------------------------------------------------------------------------

/// What `index_of` returns, stated by quantifiers.
pub proof fn lemma_index_of(s: Seq<char>, c: char)
    ensures
        match index_of(s, c) {
            Some(k) => 0 <= k < s.len() && s[k] == c && forall|j: int| 0 <= j < k ==> s[j] != c,
            None => forall|j: int| 0 <= j < s.len() ==> s[j] != c,
        },
    decreases s.len(),
{
    if s.len() > 0 && s[0] != c {
        lemma_index_of(s.drop_first(), c);
        match index_of(s.drop_first(), c) {
            Some(k) => {
                assert forall|j: int| 0 <= j < k + 1 implies s[j] != c by {
                    if j > 0 {
                        assert(s[j] == s.drop_first()[j - 1]);
                    }
                }
            },
            None => {
                assert forall|j: int| 0 <= j < s.len() implies s[j] != c by {
                    if j > 0 {
                        assert(s[j] == s.drop_first()[j - 1]);
                    }
                }
            },
        }
    }
}

/// The first position of `c` is determined by the quantified description.
pub proof fn lemma_index_of_is(s: Seq<char>, c: char, k: int)
    requires
        0 <= k < s.len(),
        s[k] == c,
        forall|j: int| 0 <= j < k ==> s[j] != c,
    ensures
        index_of(s, c) == Some(k),
{
    lemma_index_of(s, c);
}

/// `index_of` finds nothing when `c` does not occur.
pub proof fn lemma_index_of_none(s: Seq<char>, c: char)
    requires
        forall|j: int| 0 <= j < s.len() ==> s[j] != c,
    ensures
        index_of(s, c) is None,
{
    lemma_index_of(s, c);
    if let Some(k) = index_of(s, c) {
        assert(s[k] == c);
    }
}

// ---------------------------------------------------------------------------
// Executable primitives
// ---------------------------------------------------------------------------

/// The characters of `s`, in order.
pub fn chars_of(s: &str) -> (v: Vec<char>)
    ensures
        v@ == s@,
{
    let mut v: Vec<char> = Vec::new();
    for c in it: s.chars()
        invariant
            v@ == it.seq().take(it.index() as int),
            it.seq() == s@,
    {
        v.push(c);
    }
    v
}

/// `char::is_whitespace`.
pub fn char_is_whitespace(c: char) -> (b: bool)
    ensures
        b == is_whitespace(c),
{
    ('\u{9}' <= c && c <= '\u{d}') || c == ' ' || c == '\u{85}' || c == '\u{a0}' || c
        == '\u{1680}' || ('\u{2000}' <= c && c <= '\u{200a}') || c == '\u{2028}' || c == '\u{2029}'
        || c == '\u{202f}' || c == '\u{205f}' || c == '\u{3000}'
}

/// `char::to_ascii_lowercase`.
pub fn char_to_lower(c: char) -> (r: char)
    ensures
        r == to_lower(c),
{
    if 'A' <= c && c <= 'Z' {
        let b: u8 = c as u8;
        (b + 32) as char
    } else {
        c
    }
}

/// The span `[a, b)` of `v` with whitespace trimmed from both ends.
pub fn trim_span(v: &Vec<char>, a: usize, b: usize) -> (r: (usize, usize))
    requires
        a <= b <= v.len(),
    ensures
        a <= r.0 <= r.1 <= b,
        v@.subrange(r.0 as int, r.1 as int) == trim(v@.subrange(a as int, b as int)),
{
    let mut i = a;
    while i < b && char_is_whitespace(v[i])
        invariant
            a <= i <= b <= v.len(),
            trim_start(v@.subrange(a as int, b as int)) == trim_start(v@.subrange(i as int, b as int)),
        decreases b - i,
    {
        assert(v@.subrange(i as int, b as int).drop_first() =~= v@.subrange(i + 1, b as int));
        i = i + 1;
    }
    let mut j = b;
    while j > i && char_is_whitespace(v[j - 1])
        invariant
            i <= j <= b <= v.len(),
            trim_end(v@.subrange(i as int, b as int)) == trim_end(v@.subrange(i as int, j as int)),
        decreases j - i,
    {
        assert(v@.subrange(i as int, j as int).drop_last() =~= v@.subrange(i as int, j - 1));
        j = j - 1;
    }
    (i, j)
}

/// Whether the span `[a, b)` of `v`, ASCII lower-cased, contains `pat`.
pub fn span_contains_folded(v: &Vec<char>, a: usize, b: usize, pat: &Vec<char>) -> (r: bool)
    requires
        a <= b <= v.len(),
    ensures
        r == contains(lowercase(v@.subrange(a as int, b as int)), pat@),
{
    let ghost low = lowercase(v@.subrange(a as int, b as int));
    let n = b - a;
    let m = pat.len();
    if m > n {
        assert forall|k: int| !occurs_at(low, pat@, k) by {}
        return false;
    }
    let mut i: usize = 0;
    while i <= n - m
        invariant
            a <= b <= v.len(),
            n == b - a,
            m == pat.len(),
            m <= n,
            i <= n - m + 1,
            low == lowercase(v@.subrange(a as int, b as int)),
            forall|k: int| 0 <= k < i ==> !occurs_at(low, pat@, k),
        decreases n - m + 1 - i,
    {
        let mut j: usize = 0;
        let mut same = true;
        while j < m && same
            invariant
                a <= b <= v.len(),
                n == b - a,
                m == pat.len(),
                m <= n,
                i <= n - m,
                j <= m,
                low == lowercase(v@.subrange(a as int, b as int)),
                same ==> forall|t: int| 0 <= t < j ==> low[i + t] == pat@[t],
                !same ==> j > 0 && low[i + j - 1] != pat@[j - 1],
            decreases m - j + (if same { 1int } else { 0int }),
        {
            let c = char_to_lower(v[a + i + j]);
            assert(low[i + j] == to_lower(v@[a + i + j]));
            if c != pat[j] {
                same = false;
            }
            j = j + 1;
        }
        if same {
            assert(low.subrange(i as int, i + m) =~= pat@);
            assert(occurs_at(low, pat@, i as int));
            return true;
        }
        assert(!occurs_at(low, pat@, i as int)) by {
            if occurs_at(low, pat@, i as int) {
                assert(low.subrange(i as int, i + m)[j - 1] == low[i + j - 1]);
            }
        }
        i = i + 1;
    }
    assert forall|k: int| !occurs_at(low, pat@, k) by {
        if 0 <= k && k + m <= n {
            assert(k < i);
        }
    }
    false
}

/// Whether the span `[a, b)` of `v`, ASCII lower-cased, contains the text `pat`.
pub fn span_contains_folded_str(v: &Vec<char>, a: usize, b: usize, pat: &str) -> (r: bool)
    requires
        a <= b <= v.len(),
    ensures
        r == contains(lowercase(v@.subrange(a as int, b as int)), pat@),
{
    let p = chars_of(pat);
    span_contains_folded(v, a, b, &p)
}

/// Whether `v` holds `p` starting at position `i`.
pub fn starts_with_at(v: &Vec<char>, i: usize, p: &Vec<char>) -> (r: bool)
    requires
        i <= v.len(),
    ensures
        r == starts_with(v@.skip(i as int), p@),
{
    let m = p.len();
    if m > v.len() - i {
        return false;
    }
    let mut j: usize = 0;
    while j < m
        invariant
            m == p.len(),
            i + m <= v.len(),
            j <= m,
            forall|t: int| 0 <= t < j ==> v@[i + t] == p@[t],
        decreases m - j,
    {
        if v[i + j] != p[j] {
            assert(v@.skip(i as int).take(m as int)[j as int] != p@[j as int]);
            return false;
        }
        j = j + 1;
    }
    assert(v@.skip(i as int).take(m as int) =~= p@);
    true
}

/// The position of the first `c` in the span `[a, b)` of `v`, if any.
pub fn span_find_char(v: &Vec<char>, a: usize, b: usize, c: char) -> (r: Option<usize>)
    requires
        a <= b <= v.len(),
    ensures
        match r {
            Some(k) => a <= k < b && index_of(v@.subrange(a as int, b as int), c) == Some(k - a),
            None => index_of(v@.subrange(a as int, b as int), c) is None,
        },
{
    let ghost s = v@.subrange(a as int, b as int);
    let mut i = a;
    while i < b
        invariant
            a <= i <= b <= v.len(),
            s == v@.subrange(a as int, b as int),
            forall|j: int| 0 <= j < i - a ==> s[j] != c,
        decreases b - i,
    {
        if v[i] == c {
            proof {
                lemma_index_of_is(s, c, i - a);
            }
            return Some(i);
        }
        i = i + 1;
    }
    proof {
        lemma_index_of_none(s, c);
    }
    None
}

/// The spans of the lines of `v` (see `lines`).
pub fn line_spans(v: &Vec<char>) -> (spans: Vec<(usize, usize)>)
    ensures
        spans_within(spans@, v.len() as int),
        span_texts(v@, spans@) == lines(v@),
{
    let mut spans: Vec<(usize, usize)> = Vec::new();
    let mut start: usize = 0;
    let mut i: usize = 0;
    let n = v.len();
    assert(v@.skip(0) =~= v@);
    assert(v@.subrange(0, 0) =~= Seq::<char>::empty());
    assert(span_texts(v@, spans@) + lines(v@) =~= lines(v@));
    while i < n
        invariant
            n == v.len(),
            start <= i <= n,
            spans_within(spans@, n as int),
            lines(v@) == span_texts(v@, spans@) + lines_from(
                v@.skip(i as int),
                v@.subrange(start as int, i as int),
            ),
        decreases n - i,
    {
        let ghost rest = v@.skip(i as int);
        let ghost cur = v@.subrange(start as int, i as int);
        assert(rest.drop_first() =~= v@.skip(i + 1));
        if v[i] == '\n' {
            let end = if i > start && v[i - 1] == '\r' {
                i - 1
            } else {
                i
            };
            assert(v@.subrange(start as int, end as int) =~= strip_cr(cur));
            let ghost old_spans = spans@;
            spans.push((start, end));
            assert(span_texts(v@, spans@) =~= span_texts(v@, old_spans) + seq![strip_cr(cur)]);
            assert(v@.subrange((i + 1) as int, (i + 1) as int) =~= Seq::<char>::empty());
            start = i + 1;
        } else {
            assert(cur.push(v@[i as int]) =~= v@.subrange(start as int, i + 1));
        }
        i = i + 1;
    }
    let ghost cur = v@.subrange(start as int, n as int);
    assert(v@.skip(n as int) =~= Seq::<char>::empty());
    if start < n {
        let ghost old_spans = spans@;
        spans.push((start, n));
        assert(span_texts(v@, spans@) =~= span_texts(v@, old_spans) + seq![cur]);
    } else {
        assert(span_texts(v@, spans@) + seq![] =~= span_texts(v@, spans@));
    }
    spans
}

/// The text of the span `[a, b)` of `s`, whose characters are `v`.
pub fn span_string(s: &str, v: &Vec<char>, a: usize, b: usize) -> (r: String)
    requires
        v@ == s@,
        a <= b <= v.len(),
    ensures
        r@ == v@.subrange(a as int, b as int),
{
    s.substring_char(a, b).to_owned()
}

} // verus!
