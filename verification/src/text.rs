//! Character-level text rules: Unicode whitespace trimming, ASCII case
//! folding and the prefix / suffix / substring tests built on them.

use vstd::prelude::*;
use vstd::string::*;

verus! {

/// Unicode `White_Space`, the set that `char::is_whitespace` tests.
pub open spec fn is_ws(c: char) -> bool {
    ||| ('\u{9}' <= c && c <= '\u{d}')
    ||| c == ' '
    ||| c == '\u{85}'
    ||| c == '\u{a0}'
    ||| c == '\u{1680}'
    ||| ('\u{2000}' <= c && c <= '\u{200a}')
    ||| c == '\u{2028}'
    ||| c == '\u{2029}'
    ||| c == '\u{202f}'
    ||| c == '\u{205f}'
    ||| c == '\u{3000}'
}

/// What a trimming pass removes from the ends of a text.
#[derive(Clone, Copy)]
pub enum Strip {
    /// Unicode whitespace, as `str::trim` removes.
    Whitespace,
    /// Every copy of one character, as `str::trim_matches(c)` removes.
    Char(char),
}

/// `c` is removed by the pass `m`.
pub open spec fn strips(m: Strip, c: char) -> bool {
    match m {
        Strip::Whitespace => is_ws(c),
        Strip::Char(d) => c == d,
    }
}

/// Drops the leading characters that `m` removes.
pub open spec fn strip_start(s: Seq<char>, m: Strip) -> Seq<char>
    decreases s.len(),
{
    if s.len() > 0 && strips(m, s[0]) {
        strip_start(s.drop_first(), m)
    } else {
        s
    }
}

/// Drops the trailing characters that `m` removes.
pub open spec fn strip_end(s: Seq<char>, m: Strip) -> Seq<char>
    decreases s.len(),
{
    if s.len() > 0 && strips(m, s.last()) {
        strip_end(s.drop_last(), m)
    } else {
        s
    }
}

/// Drops the characters that `m` removes at both ends.
pub open spec fn strip(s: Seq<char>, m: Strip) -> Seq<char> {
    strip_end(strip_start(s, m), m)
}

/// `str::trim`: whitespace dropped at both ends.
pub open spec fn trim(s: Seq<char>) -> Seq<char> {
    strip(s, Strip::Whitespace)
}

/// `str::trim_matches(c)`: every copy of `c` dropped at both ends.
pub open spec fn trim_char(s: Seq<char>, c: char) -> Seq<char> {
    strip(s, Strip::Char(c))
}

proof fn lemma_strip_start_head(s: Seq<char>, m: Strip)
    ensures
        strip_start(s, m).len() > 0 ==> !strips(m, strip_start(s, m)[0]),
    decreases s.len(),
{
    if s.len() > 0 && strips(m, s[0]) {
        lemma_strip_start_head(s.drop_first(), m);
    }
}

proof fn lemma_strip_end_prefix(s: Seq<char>, m: Strip)
    ensures
        strip_end(s, m).len() <= s.len(),
        strip_end(s, m) == s.take(strip_end(s, m).len() as int),
        strip_end(s, m).len() > 0 ==> !strips(m, strip_end(s, m).last()),
    decreases s.len(),
{
    if s.len() > 0 && strips(m, s.last()) {
        lemma_strip_end_prefix(s.drop_last(), m);
        let k = strip_end(s, m).len() as int;
        assert(s.drop_last().take(k) =~= s.take(k));
    } else {
        assert(s.take(s.len() as int) =~= s);
    }
}

/// Stripping twice removes nothing more than stripping once.
pub proof fn lemma_strip_idempotent(s: Seq<char>, m: Strip)
    ensures
        strip(strip(s, m), m) == strip(s, m),
{
    let x = strip_start(s, m);
    let y = strip_end(x, m);
    lemma_strip_start_head(s, m);
    lemma_strip_end_prefix(x, m);
    if y.len() > 0 {
        assert(y[0] == x[0]);
        assert(strip_start(y, m) == y);
    }
}

/// Trimming twice gives what trimming once gives.
pub proof fn lemma_trim_idempotent(s: Seq<char>)
    ensures
        trim(trim(s)) == trim(s),
{
    lemma_strip_idempotent(s, Strip::Whitespace);
}

/// ASCII case folding of one character.
pub open spec fn lower_char(c: char) -> char {
    if 'A' <= c && c <= 'Z' {
        ((c as u32) + 32) as char
    } else {
        c
    }
}

/// ASCII case folding of a whole text; other characters are kept.
pub open spec fn ascii_lower(s: Seq<char>) -> Seq<char> {
    s.map_values(|c: char| lower_char(c))
}

/// `needle` occurs somewhere in `hay`.
pub open spec fn occurs_in(needle: Seq<char>, hay: Seq<char>) -> bool {
    exists|i: int|
        0 <= i && i + needle.len() <= hay.len() && #[trigger] hay.subrange(i, i + needle.len())
            == needle
}

proof fn lemma_strip_start_skip(s: Seq<char>, i: int, m: Strip)
    requires
        0 <= i < s.len(),
        strips(m, s[i]),
    ensures
        strip_start(s.subrange(i, s.len() as int), m) == strip_start(
            s.subrange(i + 1, s.len() as int),
            m,
        ),
{
    let t = s.subrange(i, s.len() as int);
    assert(t.drop_first() =~= s.subrange(i + 1, s.len() as int));
}

proof fn lemma_strip_end_skip(s: Seq<char>, j: int, m: Strip)
    requires
        0 < j <= s.len(),
        strips(m, s[j - 1]),
    ensures
        strip_end(s.subrange(0, j), m) == strip_end(s.subrange(0, j - 1), m),
{
    let t = s.subrange(0, j);
    assert(t.drop_last() =~= s.subrange(0, j - 1));
}

/// `c` is removed by the pass `m`.
fn is_stripped(m: Strip, c: char) -> (b: bool)
    ensures
        b == strips(m, c),
{
    match m {
        Strip::Whitespace => is_whitespace(c),
        Strip::Char(d) => c == d,
    }
}

/// Index of the first character that `m` keeps (or the length).
fn leading_stripped(s: &str, m: Strip) -> (a: usize)
    ensures
        a <= s@.len(),
        strip_start(s@, m) == s@.subrange(a as int, s@.len() as int),
{
    let n = s.unicode_len();
    let mut i: usize = 0;
    assert(s@.subrange(0, s@.len() as int) =~= s@);
    while i < n
        invariant
            n == s@.len(),
            i <= n,
            strip_start(s@, m) == strip_start(s@.subrange(i as int, n as int), m),
        decreases n - i,
    {
        let c = s.get_char(i);
        if is_stripped(m, c) {
            proof {
                lemma_strip_start_skip(s@, i as int, m);
            }
            i = i + 1;
        } else {
            return i;
        }
    }
    i
}

/// `char::is_whitespace`, written out over the Unicode `White_Space` set.
pub fn is_whitespace(c: char) -> (b: bool)
    ensures
        b == is_ws(c),
{
    ('\u{9}' <= c && c <= '\u{d}') || c == ' ' || c == '\u{85}' || c == '\u{a0}' || c
        == '\u{1680}' || ('\u{2000}' <= c && c <= '\u{200a}') || c == '\u{2028}' || c
        == '\u{2029}' || c == '\u{202f}' || c == '\u{205f}' || c == '\u{3000}'
}

/// The text with the characters that `m` removes dropped at both ends.
pub fn strip_str(s: &str, m: Strip) -> (r: String)
    ensures
        r@ == strip(s@, m),
{
    let n = s.unicode_len();
    let a = leading_stripped(s, m);
    let ghost t = s@.subrange(a as int, n as int);
    let mut j: usize = n;
    assert(t.subrange(0, t.len() as int) =~= t);
    while j > a
        invariant
            n == s@.len(),
            a <= j <= n,
            t == s@.subrange(a as int, n as int),
            strip_end(t, m) == strip_end(t.subrange(0, j - a), m),
        ensures
            a <= j <= n,
            strip_end(t, m) == strip_end(t.subrange(0, j - a), m),
            j > a ==> !strips(m, s@[j - 1]),
        decreases j,
    {
        let c = s.get_char(j - 1);
        if is_stripped(m, c) {
            proof {
                lemma_strip_end_skip(t, (j - a) as int, m);
            }
            j = j - 1;
        } else {
            break;
        }
    }
    let sub = s.substring_char(a, j);
    proof {
        assert(t.subrange(0, j - a) =~= s@.subrange(a as int, j as int));
        if j > a {
            assert(!strips(m, s@[j - 1]));
        } else {
            assert(t.subrange(0, 0).len() == 0);
        }
    }
    String::from_str(sub)
}


/// `str::trim`, as an owned string.
pub fn trim_str(s: &str) -> (r: String)
    ensures
        r@ == trim(s@),
{
    strip_str(s, Strip::Whitespace)
}

/// `str::trim_matches(c)`, as an owned string.
pub fn trim_matches_char(s: &str, c: char) -> (r: String)
    ensures
        r@ == trim_char(s@, c),
{
    strip_str(s, Strip::Char(c))
}

/// ASCII case folding of one character (`char::to_ascii_lowercase`).
pub fn to_ascii_lower(c: char) -> (r: char)
    ensures
        r == lower_char(c),
{
    if 'A' <= c && c <= 'Z' {
        let v: u8 = c as u8;
        assert(v == c as u32) by {
            assert('A' <= c <= 'Z');
        }
        let w: u8 = v + 32;
        (w as char)
    } else {
        c
    }
}

/// Compares `n` characters of `s` from `at` with `p`, folding `s` to ASCII
/// lower case first when `fold` is set.
fn matches_at(s: &str, at: usize, p: &str, fold: bool) -> (b: bool)
    requires
        at + p@.len() <= s@.len(),
    ensures
        b == (folded(s@, fold).subrange(at as int, at + p@.len()) == p@),
{
    let m = p.unicode_len();
    let n = s.unicode_len();
    let mut k: usize = 0;
    while k < m
        invariant
            m == p@.len(),
            n == s@.len(),
            at + m <= n,
            k <= m,
            forall|q: int| 0 <= q < k ==> #[trigger] folded(s@, fold)[at + q] == p@[q],
        decreases m - k,
    {
        let c0 = s.get_char(at + k);
        let c = if fold {
            to_ascii_lower(c0)
        } else {
            c0
        };
        if c != p.get_char(k) {
            assert(folded(s@, fold).subrange(at as int, at + m)[k as int] != p@[k as int]);
            return false;
        }
        k = k + 1;
    }
    assert(folded(s@, fold).subrange(at as int, at + m) =~= p@) by {
        assert forall|q: int| 0 <= q < m implies #[trigger] folded(s@, fold).subrange(
            at as int,
            at + m,
        )[q] == p@[q] by {
            assert(folded(s@, fold)[at + q] == p@[q]);
        }
    }
    true
}

/// `s` itself, or its ASCII lower-case form.
pub open spec fn folded(s: Seq<char>, fold: bool) -> Seq<char> {
    if fold {
        ascii_lower(s)
    } else {
        s
    }
}

fn starts_with_folded(s: &str, prefix: &str, fold: bool) -> (b: bool)
    ensures
        b == prefix@.is_prefix_of(folded(s@, fold)),
{
    let n = s.unicode_len();
    let m = prefix.unicode_len();
    if m > n {
        false
    } else {
        matches_at(s, 0, prefix, fold)
    }
}

fn ends_with_folded(s: &str, suffix: &str, fold: bool) -> (b: bool)
    ensures
        b == suffix@.is_suffix_of(folded(s@, fold)),
{
    let n = s.unicode_len();
    let m = suffix.unicode_len();
    if m > n {
        false
    } else {
        matches_at(s, n - m, suffix, fold)
    }
}

fn contains_folded(s: &str, needle: &str, fold: bool) -> (b: bool)
    ensures
        b == occurs_in(needle@, folded(s@, fold)),
{
    let n = s.unicode_len();
    let m = needle.unicode_len();
    if m > n {
        return false;
    }
    if m == 0 {
        assert(folded(s@, fold).subrange(0int, 0int + needle@.len()) =~= needle@);
        return true;
    }
    let mut i: usize = 0;
    while i <= n - m
        invariant
            n == s@.len(),
            m == needle@.len(),
            0 < m <= n,
            i <= n - m + 1,
            forall|q: int|
                0 <= q < i ==> #[trigger] folded(s@, fold).subrange(q, q + m) != needle@,
        decreases n - i,
    {
        if matches_at(s, i, needle, fold) {
            return true;
        }
        i = i + 1;
    }
    assert(!occurs_in(needle@, folded(s@, fold))) by {
        assert forall|q: int| 0 <= q && q + m <= n implies #[trigger] folded(s@, fold).subrange(
            q,
            q + m,
        ) != needle@ by {
            assert(q < i);
        }
    }
    false
}

/// `s.starts_with(prefix)`.
pub fn starts_with(s: &str, prefix: &str) -> (b: bool)
    ensures
        b == prefix@.is_prefix_of(s@),
{
    starts_with_folded(s, prefix, false)
}

/// `s.ends_with(suffix)`.
pub fn ends_with(s: &str, suffix: &str) -> (b: bool)
    ensures
        b == suffix@.is_suffix_of(s@),
{
    ends_with_folded(s, suffix, false)
}

/// `s.to_ascii_lowercase().starts_with(prefix)`.
pub fn lower_starts_with(s: &str, prefix: &str) -> (b: bool)
    ensures
        b == prefix@.is_prefix_of(ascii_lower(s@)),
{
    starts_with_folded(s, prefix, true)
}

/// `s.to_ascii_lowercase().ends_with(suffix)`.
pub fn lower_ends_with(s: &str, suffix: &str) -> (b: bool)
    ensures
        b == suffix@.is_suffix_of(ascii_lower(s@)),
{
    ends_with_folded(s, suffix, true)
}

/// `s.to_ascii_lowercase().contains(needle)`.
pub fn lower_contains(s: &str, needle: &str) -> (b: bool)
    ensures
        b == occurs_in(needle@, ascii_lower(s@)),
{
    contains_folded(s, needle, true)
}

/// `a` followed by `b`, as a new string.
pub fn concat(a: &str, b: &str) -> (r: String)
    ensures
        r@ == a@ + b@,
{
    let mut r = String::from_str(a);
    r.append(b);
    r
}


/// Position of the first `c` in `s`, or `s.len()` when `c` does not occur.
pub open spec fn first_index(s: Seq<char>, c: char) -> int
    decreases s.len(),
{
    if s.len() == 0 {
        0
    } else if s[0] == c {
        0
    } else {
        1 + first_index(s.drop_first(), c)
    }
}

/// Position of the last `c` in `s`, or `-1` when `c` does not occur.
pub open spec fn last_index(s: Seq<char>, c: char) -> int
    decreases s.len(),
{
    if s.len() == 0 {
        -1
    } else if s.last() == c {
        s.len() - 1
    } else {
        last_index(s.drop_last(), c)
    }
}

/// `s.split(c).next()`: the text before the first `c` (all of it if none).
pub open spec fn before_first(s: Seq<char>, c: char) -> Seq<char> {
    s.take(first_index(s, c))
}

/// The value part of `s.split_once(c)`: the text after the first `c`.
pub open spec fn after_first(s: Seq<char>, c: char) -> Option<Seq<char>> {
    if first_index(s, c) < s.len() {
        Some(s.skip(first_index(s, c) + 1))
    } else {
        None
    }
}

/// `s.rsplit(c).next()`: the text after the last `c` (all of it if none).
pub open spec fn after_last(s: Seq<char>, c: char) -> Seq<char> {
    s.skip(last_index(s, c) + 1)
}

pub proof fn lemma_first_index_bounds(s: Seq<char>, c: char)
    ensures
        0 <= first_index(s, c) <= s.len(),
        first_index(s, c) < s.len() ==> s[first_index(s, c)] == c,
        forall|j: int| 0 <= j < first_index(s, c) ==> s[j] != c,
    decreases s.len(),
{
    if s.len() > 0 && s[0] != c {
        lemma_first_index_bounds(s.drop_first(), c);
        assert forall|j: int| 0 <= j < first_index(s, c) implies s[j] != c by {
            if j > 0 {
                assert(s[j] == s.drop_first()[j - 1]);
            }
        }
    }
}

pub proof fn lemma_last_index_bounds(s: Seq<char>, c: char)
    ensures
        -1 <= last_index(s, c) < s.len(),
        last_index(s, c) >= 0 ==> s[last_index(s, c)] == c,
        forall|j: int| last_index(s, c) < j < s.len() ==> s[j] != c,
    decreases s.len(),
{
    if s.len() > 0 && s.last() != c {
        lemma_last_index_bounds(s.drop_last(), c);
        assert forall|j: int| last_index(s, c) < j < s.len() implies s[j] != c by {
            if j < s.len() - 1 {
                assert(s[j] == s.drop_last()[j]);
            }
        }
    }
}

/// `s.find(c)`, with the length standing for "absent".
pub fn find_char(s: &str, c: char) -> (k: usize)
    ensures
        k == first_index(s@, c),
{
    let n = s.unicode_len();
    let mut i: usize = 0;
    assert(s@.skip(0) =~= s@);
    while i < n
        invariant
            n == s@.len(),
            i <= n,
            first_index(s@, c) == i + first_index(s@.skip(i as int), c),
        decreases n - i,
    {
        if s.get_char(i) == c {
            return i;
        }
        assert(s@.skip(i as int).drop_first() =~= s@.skip(i + 1));
        i = i + 1;
    }
    i
}

/// `s.rfind(c)`.
fn rfind_char(s: &str, c: char) -> (k: Option<usize>)
    ensures
        match k {
            Some(k) => k == last_index(s@, c),
            None => last_index(s@, c) == -1,
        },
{
    let n = s.unicode_len();
    let mut j: usize = n;
    assert(s@.take(n as int) =~= s@);
    while j > 0
        invariant
            n == s@.len(),
            j <= n,
            last_index(s@, c) == last_index(s@.take(j as int), c),
        decreases j,
    {
        if s.get_char(j - 1) == c {
            return Some(j - 1);
        }
        assert(s@.take(j as int).drop_last() =~= s@.take(j - 1));
        j = j - 1;
    }
    None
}

/// `s.split(c).next()`, as an owned string.
pub fn before_first_char(s: &str, c: char) -> (r: String)
    ensures
        r@ == before_first(s@, c),
{
    let k = find_char(s, c);
    proof {
        lemma_first_index_bounds(s@, c);
    }
    String::from_str(s.substring_char(0, k))
}

/// The value part of `s.split_once(c)`, as an owned string.
pub fn after_first_char(s: &str, c: char) -> (r: Option<String>)
    ensures
        match r {
            Some(v) => after_first(s@, c) == Some(v@),
            None => after_first(s@, c) is None,
        },
{
    let n = s.unicode_len();
    let k = find_char(s, c);
    proof {
        lemma_first_index_bounds(s@, c);
    }
    if k < n {
        let v = String::from_str(s.substring_char(k + 1, n));
        assert(v@ =~= s@.skip(k + 1));
        Some(v)
    } else {
        None
    }
}

/// `s.rsplit(c).next()`, as an owned string.
pub fn after_last_char(s: &str, c: char) -> (r: String)
    ensures
        r@ == after_last(s@, c),
{
    let n = s.unicode_len();
    proof {
        lemma_last_index_bounds(s@, c);
    }
    match rfind_char(s, c) {
        Some(k) => {
            let v = String::from_str(s.substring_char(k + 1, n));
            assert(v@ =~= s@.skip(k + 1));
            v
        },
        None => {
            assert(s@.skip(0) =~= s@);
            String::from_str(s)
        },
    }
}


/// What `str::to_lowercase` gives for `s`: the full Unicode lower-case
/// mapping, character by character.
pub uninterp spec fn unicode_lower(s: Seq<char>) -> Seq<char>;

/// `str::to_lowercase`. Trusted: the result is the name `unicode_lower`
/// applied to the text.
#[verifier::external_body]
pub(crate) fn to_lowercase(s: &str) -> (r: String)
    ensures
        r@ == unicode_lower(s@),
{
    s.to_lowercase()
}


/// Whether `a` and `b` hold the same characters.
pub fn same_text(a: &str, b: &str) -> (r: bool)
    ensures
        r == (a@ == b@),
{
    let n = a.unicode_len();
    let m = b.unicode_len();
    if n != m {
        return false;
    }
    let r = matches_at(a, 0, b, false);
    assert(a@.subrange(0, m as int) =~= a@);
    r
}

/// `str::to_ascii_lowercase`. Trusted: ASCII letters `A`..=`Z` become
/// `a`..=`z` and every other character is kept, as its documentation says.
#[verifier::external_body]
pub(crate) fn to_ascii_lowercase(s: &str) -> (r: String)
    ensures
        r@ == ascii_lower(s@),
{
    s.to_ascii_lowercase()
}


/// The texts of `parts` one after another, `sep` between neighbours.
pub open spec fn joined(parts: Seq<Seq<char>>, sep: Seq<char>) -> Seq<char>
    decreases parts.len(),
{
    if parts.len() == 0 {
        Seq::empty()
    } else if parts.len() == 1 {
        parts[0]
    } else {
        joined(parts.drop_last(), sep) + sep + parts.last()
    }
}

/// The views of a list of strings.
pub open spec fn texts(parts: Seq<String>) -> Seq<Seq<char>> {
    parts.map_values(|p: String| p@)
}

/// `parts.join(sep)`.
pub fn join_strings(parts: &[String], sep: &str) -> (r: String)
    ensures
        r@ == joined(texts(parts@), sep@),
{
    let n = parts.len();
    let mut r = String::new();
    let mut i: usize = 0;
    assert(texts(parts@).take(0) =~= Seq::<Seq<char>>::empty());
    while i < n
        invariant
            n == parts@.len(),
            i <= n,
            r@ == joined(texts(parts@).take(i as int), sep@),
        decreases n - i,
    {
        assert(texts(parts@).take(i + 1).drop_last() =~= texts(parts@).take(i as int));
        if i > 0 {
            r.append(sep);
        }
        r.append(parts[i].as_str());
        if i == 0 {
            assert(r@ =~= joined(texts(parts@).take(1), sep@));
        }
        i = i + 1;
    }
    assert(texts(parts@).take(n as int) =~= texts(parts@));
    r
}

} // verus!
