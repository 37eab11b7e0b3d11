//! Character-level text utilities with specifications over `Seq<char>`.

use vstd::prelude::*;

verus! {

/// Unicode `White_Space` (what `char::is_whitespace` and `str::trim` use).
pub open spec fn is_ws(c: char) -> bool {
    ||| c == ' ' || c == '\t' || c == '\n' || c == '\x0B' || c == '\x0C' || c == '\r'
    ||| c == '\u{85}' || c == '\u{A0}' || c == '\u{1680}'
    ||| ('\u{2000}' <= c && c <= '\u{200A}')
    ||| c == '\u{2028}' || c == '\u{2029}' || c == '\u{202F}' || c == '\u{205F}'
    ||| c == '\u{3000}'
}

pub fn is_whitespace(c: char) -> (r: bool)
    ensures
        r == is_ws(c),
{
    c == ' ' || c == '\t' || c == '\n' || c == '\x0B' || c == '\x0C' || c == '\r' || c == '\u{85}'
        || c == '\u{A0}' || c == '\u{1680}' || ('\u{2000}' <= c && c <= '\u{200A}') || c
        == '\u{2028}' || c == '\u{2029}' || c == '\u{202F}' || c == '\u{205F}' || c == '\u{3000}'
}

/// `s` with leading whitespace removed.
pub open spec fn trim_start(s: Seq<char>) -> Seq<char>
    decreases s.len(),
{
    if s.len() > 0 && is_ws(s[0]) {
        trim_start(s.drop_first())
    } else {
        s
    }
}

/// `s` with trailing whitespace removed.
pub open spec fn trim_end(s: Seq<char>) -> Seq<char>
    decreases s.len(),
{
    if s.len() > 0 && is_ws(s.last()) {
        trim_end(s.drop_last())
    } else {
        s
    }
}

/// `s` with leading and trailing whitespace removed (`str::trim`).
pub open spec fn trim(s: Seq<char>) -> Seq<char> {
    trim_end(trim_start(s))
}

/// The whitespace-separated tokens of `s` (`str::split_whitespace`).
pub open spec fn ws_tokens(s: Seq<char>) -> Seq<Seq<char>>
    decreases s.len(),
{
    if s.len() == 0 {
        Seq::empty()
    } else {
        let rest = ws_tokens(s.drop_last());
        let c = s.last();
        if is_ws(c) {
            rest
        } else if s.len() >= 2 && !is_ws(s[s.len() - 2]) {
            rest.update(rest.len() - 1, rest.last().push(c))
        } else {
            rest.push(seq![c])
        }
    }
}

/// The segments of `s` between occurrences of `sep` (`str::split` on one character).
pub open spec fn split_on(s: Seq<char>, sep: char) -> Seq<Seq<char>>
    decreases s.len(),
{
    if s.len() == 0 {
        seq![Seq::empty()]
    } else {
        let rest = split_on(s.drop_last(), sep);
        if s.last() == sep {
            rest.push(Seq::empty())
        } else {
            rest.update(rest.len() - 1, rest.last().push(s.last()))
        }
    }
}

/// Index of the last occurrence of `c` in `s`, if any (`str::rfind`).
pub open spec fn last_index_of(s: Seq<char>, c: char) -> Option<int>
    decreases s.len(),
{
    if s.len() == 0 {
        None
    } else if s.last() == c {
        Some(s.len() - 1)
    } else {
        last_index_of(s.drop_last(), c)
    }
}

/// Index of the first occurrence of `c` in `s`, if any (`str::find`).
pub open spec fn first_index_of(s: Seq<char>, c: char) -> Option<int>
    decreases s.len(),
{
    if s.len() == 0 {
        None
    } else if s[0] == c {
        Some(0)
    } else {
        match first_index_of(s.drop_first(), c) {
            Some(i) => Some(i + 1),
            None => None,
        }
    }
}

pub open spec fn is_digit(c: char) -> bool {
    '0' <= c && c <= '9'
}

/// Decimal value of a string of digits.
pub open spec fn digits_value(s: Seq<char>) -> int
    decreases s.len(),
{
    if s.len() == 0 {
        0
    } else {
        digits_value(s.drop_last()) * 10 + (s.last() as int - '0' as int)
    }
}

pub open spec fn all_digits(s: Seq<char>) -> bool {
    forall|i: int| 0 <= i < s.len() ==> is_digit(#[trigger] s[i])
}

/// What `u32::from_str` accepts: an optional `+`, then one or more decimal
/// digits whose value fits in a `u32`.
pub open spec fn parse_u32(s: Seq<char>) -> Option<u32> {
    let d = if s.len() > 0 && s[0] == '+' {
        s.drop_first()
    } else {
        s
    };
    if d.len() > 0 && all_digits(d) && digits_value(d) <= u32::MAX {
        Some(digits_value(d) as u32)
    } else {
        None
    }
}

/// `p` occurs in `s` starting at index `i`.
pub open spec fn occurs_at(s: Seq<char>, p: Seq<char>, i: int) -> bool {
    0 <= i && i + p.len() <= s.len() && s.subrange(i, i + p.len()) == p
}

/// `p` occurs somewhere in `s` (`str::contains`).
pub open spec fn contains_sub(s: Seq<char>, p: Seq<char>) -> bool {
    exists|i: int| occurs_at(s, p, i)
}

/// Every occurrence of `pat`, scanned left to right without overlap, replaced by
/// `rep` (`str::replace`, for a non-empty pattern).
pub open spec fn replace_all(s: Seq<char>, pat: Seq<char>, rep: Seq<char>) -> Seq<char>
    recommends
        pat.len() > 0,
    decreases s.len(),
{
    if pat.len() == 0 || s.len() == 0 {
        s
    } else if pat.is_prefix_of(s) {
        rep + replace_all(s.skip(pat.len() as int), pat, rep)
    } else {
        seq![s[0]] + replace_all(s.drop_first(), pat, rep)
    }
}

/// Unicode lowercase mapping of a string (`str::to_lowercase`).
pub uninterp spec fn lowercase(s: Seq<char>) -> Seq<char>;

/// Every character is ASCII.
pub open spec fn is_ascii_chars(s: Seq<char>) -> bool {
    forall|i: int| 0 <= i < s.len() ==> (#[trigger] s[i] as u32) < 128
}

/// `c` with `A`..`Z` mapped to `a`..`z`.
pub open spec fn ascii_lower_char(c: char) -> char {
    if 'A' <= c && c <= 'Z' {
        ((c as u32) + 32) as char
    } else {
        c
    }
}

/// `c` with `a`..`z` mapped to `A`..`Z`.
pub open spec fn ascii_upper_char(c: char) -> char {
    if 'a' <= c && c <= 'z' {
        ((c as u32) - 32) as char
    } else {
        c
    }
}

/// The ASCII lowercase form of a string.
pub open spec fn ascii_lower(s: Seq<char>) -> Seq<char> {
    s.map_values(|c: char| ascii_lower_char(c))
}

/// The ASCII uppercase form of a string.
pub open spec fn ascii_upper(s: Seq<char>) -> Seq<char> {
    s.map_values(|c: char| ascii_upper_char(c))
}

/// Unicode uppercase mapping of a string (`str::to_uppercase`).
pub uninterp spec fn uppercase(s: Seq<char>) -> Seq<char>;

/// The characters of a string slice, in order.
pub fn chars_of(s: &str) -> (r: Vec<char>)
    ensures
        r@ == s@,
{
    let mut r: Vec<char> = Vec::new();
    for c in it: s.chars()
        invariant
            r@ == it.seq().take(it.index()),
    {
        r.push(c);
    }
    r
}

/// Collects characters into a `String` (std's `FromIterator<&char> for String`);
/// the string holds exactly these characters in this order.
#[verifier::external_body]
pub(crate) fn string_of(v: &[char]) -> (r: String)
    ensures
        r@ == v@,
{
    v.iter().collect()
}

/// `str::to_lowercase`: the result is the Unicode lowercase mapping of `s`, a
/// function of `s` alone; its value is left to the name `lowercase`. On ASCII
/// text the Unicode mapping lowercases `A`..`Z` and keeps every other
/// character, which is all that is stated of it.
#[verifier::external_body]
pub(crate) fn to_lower(s: &str) -> (r: String)
    ensures
        r@ == lowercase(s@),
        is_ascii_chars(s@) ==> r@ == ascii_lower(s@),
{
    s.to_lowercase()
}

/// `str::to_uppercase`: the result is the Unicode uppercase mapping of `s`, a
/// function of `s` alone; its value is left to the name `uppercase`. On ASCII
/// text the Unicode mapping uppercases `a`..`z` and keeps every other
/// character, which is all that is stated of it.
#[verifier::external_body]
pub(crate) fn to_upper(s: &str) -> (r: String)
    ensures
        r@ == uppercase(s@),
        is_ascii_chars(s@) ==> r@ == ascii_upper(s@),
{
    s.to_uppercase()
}

/// Lowercase mapping of a character sequence, as characters.
pub fn lower_chars(v: &[char]) -> (r: Vec<char>)
    ensures
        r@ == lowercase(v@),
        is_ascii_chars(v@) ==> r@ == ascii_lower(v@),
{
    let s = string_of(v);
    let l = to_lower(s.as_str());
    chars_of(l.as_str())
}

/// Uppercase mapping of a character sequence, as characters.
pub fn upper_chars(v: &[char]) -> (r: Vec<char>)
    ensures
        r@ == uppercase(v@),
        is_ascii_chars(v@) ==> r@ == ascii_upper(v@),
{
    let s = string_of(v);
    let l = to_upper(s.as_str());
    chars_of(l.as_str())
}

/// Copy of `v[start..end]`.
pub fn sub_chars(v: &[char], start: usize, end: usize) -> (r: Vec<char>)
    requires
        start <= end <= v@.len(),
    ensures
        r@ == v@.subrange(start as int, end as int),
{
    let mut r: Vec<char> = Vec::new();
    let mut i = start;
    while i < end
        invariant
            start <= i <= end <= v@.len(),
            r@ == v@.subrange(start as int, i as int),
        decreases end - i,
    {
        r.push(v[i]);
        i += 1;
        assert(r@ =~= v@.subrange(start as int, i as int));
    }
    r
}

/// Equality of two character sequences.
pub fn chars_eq(a: &[char], b: &[char]) -> (r: bool)
    ensures
        r == (a@ == b@),
{
    if a.len() != b.len() {
        return false;
    }
    let mut i: usize = 0;
    while i < a.len()
        invariant
            a@.len() == b@.len(),
            i <= a@.len(),
            forall|j: int| 0 <= j < i ==> a@[j] == b@[j],
        decreases a.len() - i,
    {
        if a[i] != b[i] {
            return false;
        }
        i += 1;
    }
    assert(a@ =~= b@);
    true
}

/// A character sequence equals the characters of a string slice.
pub fn chars_eq_str(a: &[char], b: &str) -> (r: bool)
    ensures
        r == (a@ == b@),
{
    let bv = chars_of(b);
    chars_eq(a, bv.as_slice())
}

/// `p` is a prefix of `s`.
pub fn starts_with(s: &[char], p: &[char]) -> (r: bool)
    ensures
        r == p@.is_prefix_of(s@),
{
    if p.len() > s.len() {
        return false;
    }
    let mut i: usize = 0;
    while i < p.len()
        invariant
            p@.len() <= s@.len(),
            i <= p@.len(),
            forall|j: int| 0 <= j < i ==> p@[j] == s@[j],
        decreases p.len() - i,
    {
        if p[i] != s[i] {
            return false;
        }
        i += 1;
    }
    true
}

/// `p` is a suffix of `s`.
pub fn ends_with(s: &[char], p: &[char]) -> (r: bool)
    ensures
        r == p@.is_suffix_of(s@),
{
    if p.len() > s.len() {
        return false;
    }
    let off = s.len() - p.len();
    let mut i: usize = 0;
    while i < p.len()
        invariant
            p@.len() <= s@.len(),
            off + p@.len() == s@.len(),
            s.len() == s@.len(),
            p.len() == p@.len(),
            i <= p@.len(),
            forall|j: int| 0 <= j < i ==> p@[j] == s@[off + j],
        decreases p.len() - i,
    {
        if p[i] != s[off + i] {
            return false;
        }
        i += 1;
    }
    true
}

/// `p` is a suffix of `s`, with `p` given as a string slice.
pub fn ends_with_str(s: &[char], p: &str) -> (r: bool)
    ensures
        r == p@.is_suffix_of(s@),
{
    let pv = chars_of(p);
    ends_with(s, pv.as_slice())
}

/// `p` is a prefix of `s`, with `p` given as a string slice.
pub fn starts_with_str(s: &[char], p: &str) -> (r: bool)
    ensures
        r == p@.is_prefix_of(s@),
{
    let pv = chars_of(p);
    starts_with(s, pv.as_slice())
}

/// `p` occurs in `s` at index `i`.
pub fn occurs_at_exec(s: &[char], p: &[char], i: usize) -> (r: bool)
    ensures
        r == occurs_at(s@, p@, i as int),
{
    if i > s.len() || p.len() > s.len() - i {
        return false;
    }
    let mut j: usize = 0;
    while j < p.len()
        invariant
            i + p@.len() <= s@.len(),
            s.len() == s@.len(),
            p.len() == p@.len(),
            j <= p@.len(),
            forall|k: int| 0 <= k < j ==> p@[k] == s@[i + k],
        decreases p.len() - j,
    {
        if p[j] != s[i + j] {
            assert(s@.subrange(i as int, i + p@.len())[j as int] != p@[j as int]);
            return false;
        }
        j += 1;
    }
    assert(s@.subrange(i as int, i + p@.len()) =~= p@);
    true
}

/// `p` occurs somewhere in `s` (`str::contains`).
pub fn contains_chars(s: &[char], p: &[char]) -> (r: bool)
    ensures
        r == contains_sub(s@, p@),
{
    let mut i: usize = 0;
    while i < s.len()
        invariant
            i <= s@.len(),
            s.len() == s@.len(),
            forall|k: int| 0 <= k < i ==> !occurs_at(s@, p@, k),
        decreases s.len() - i,
    {
        if occurs_at_exec(s, p, i) {
            return true;
        }
        i += 1;
    }
    if occurs_at_exec(s, p, i) {
        return true;
    }
    assert forall|k: int| !occurs_at(s@, p@, k) by {
        if 0 <= k && k < i {
        }
    }
    false
}

/// `p` (a string slice) occurs somewhere in `s`.
pub fn contains_str(s: &[char], p: &str) -> (r: bool)
    ensures
        r == contains_sub(s@, p@),
{
    let pv = chars_of(p);
    contains_chars(s, pv.as_slice())
}

/// `c` occurs in `s`.
pub fn contains_char(s: &[char], c: char) -> (r: bool)
    ensures
        r == s@.contains(c),
{
    let mut i: usize = 0;
    while i < s.len()
        invariant
            i <= s@.len(),
            forall|k: int| 0 <= k < i ==> s@[k] != c,
        decreases s.len() - i,
    {
        if s[i] == c {
            return true;
        }
        i += 1;
    }
    false
}

proof fn lemma_trim_start_skip(s: Seq<char>, i: int)
    requires
        0 <= i <= s.len(),
        forall|k: int| 0 <= k < i ==> is_ws(#[trigger] s[k]),
    ensures
        trim_start(s) == trim_start(s.skip(i)),
    decreases i,
{
    if i > 0 {
        assert(s.skip(1) =~= s.drop_first());
        lemma_trim_start_skip(s.drop_first(), i - 1);
        assert(s.drop_first().skip(i - 1) =~= s.skip(i));
    } else {
        assert(s.skip(0) =~= s);
    }
}

proof fn lemma_trim_end_take(s: Seq<char>, j: int)
    requires
        0 <= j <= s.len(),
        forall|k: int| j <= k < s.len() ==> is_ws(#[trigger] s[k]),
    ensures
        trim_end(s) == trim_end(s.take(j)),
    decreases s.len() - j,
{
    if j < s.len() {
        lemma_trim_end_take(s.drop_last(), j);
        assert(s.drop_last().take(j) =~= s.take(j));
    } else {
        assert(s.take(j) =~= s);
    }
}

/// The character sequences held by a sequence of vectors.
pub open spec fn views(v: Seq<Vec<char>>) -> Seq<Seq<char>> {
    v.map_values(|x: Vec<char>| x@)
}

/// The character sequences held by a sequence of strings.
pub open spec fn str_views(v: Seq<String>) -> Seq<Seq<char>> {
    v.map_values(|x: String| x@)
}

/// Bounds `(a, b)` such that `v[a..b]` is `v` trimmed of whitespace.
pub fn trim_bounds(v: &[char]) -> (r: (usize, usize))
    ensures
        r.0 <= r.1 <= v@.len(),
        v@.subrange(r.0 as int, r.1 as int) == trim(v@),
{
    let mut a: usize = 0;
    while a < v.len() && is_whitespace(v[a])
        invariant
            a <= v@.len(),
            forall|k: int| 0 <= k < a ==> is_ws(#[trigger] v@[k]),
        decreases v.len() - a,
    {
        a += 1;
    }
    proof {
        lemma_trim_start_skip(v@, a as int);
    }
    let ghost st = v@.skip(a as int);
    assert(trim_start(st) == st);
    let mut b: usize = v.len();
    while b > a && is_whitespace(v[b - 1])
        invariant
            a <= b <= v@.len(),
            forall|k: int| b <= k < v@.len() ==> is_ws(#[trigger] v@[k]),
        decreases b,
    {
        b -= 1;
    }
    proof {
        lemma_trim_end_take(st, b - a);
        assert forall|k: int| b - a <= k < st.len() implies is_ws(#[trigger] st[k]) by {
            assert(st[k] == v@[k + a]);
        }
        let t = st.take(b - a);
        assert(t =~= v@.subrange(a as int, b as int));
        if t.len() > 0 {
            assert(!is_ws(t.last()));
        }
        assert(trim_end(t) == t);
    }
    (a, b)
}

/// `v` trimmed of leading and trailing whitespace.
pub fn trim_chars(v: &[char]) -> (r: Vec<char>)
    ensures
        r@ == trim(v@),
{
    let (a, b) = trim_bounds(v);
    sub_chars(v, a, b)
}

/// The whitespace-separated tokens of `v` (`str::split_whitespace`).
pub fn ws_tokens_exec(v: &[char]) -> (r: Vec<Vec<char>>)
    ensures
        views(r@) == ws_tokens(v@),
{
    let mut r: Vec<Vec<char>> = Vec::new();
    let mut cur: Vec<char> = Vec::new();
    let mut in_tok = false;
    let mut i: usize = 0;
    while i < v.len()
        invariant
            i <= v@.len(),
            in_tok ==> i > 0 && !is_ws(v@[i - 1]),
            !in_tok ==> (i == 0 || is_ws(v@[i - 1])),
            in_tok ==> ws_tokens(v@.take(i as int)) == views(r@).push(cur@),
            !in_tok ==> ws_tokens(v@.take(i as int)) == views(r@),
        decreases v.len() - i,
    {
        let c = v[i];
        let ghost pre = v@.take(i as int);
        assert(v@.take(i + 1).drop_last() =~= pre);
        if is_whitespace(c) {
            if in_tok {
                let ghost old_r = views(r@);
                r.push(cur);
                assert(views(r@) =~= old_r.push(cur@));
                cur = Vec::new();
                in_tok = false;
            }
        } else {
            if in_tok {
                cur.push(c);
                proof {
                    let ws = ws_tokens(pre);
                    assert(ws_tokens(v@.take(i + 1)) =~= ws.update(ws.len() - 1, ws.last().push(c)));
                }
            } else {
                cur = Vec::new();
                cur.push(c);
                assert(cur@ =~= seq![c]);
                in_tok = true;
            }
        }
        i += 1;
    }
    assert(v@.take(i as int) =~= v@);
    if in_tok {
        let ghost old_r = views(r@);
        r.push(cur);
        assert(views(r@) =~= old_r.push(cur@));
    }
    r
}

proof fn lemma_digits_value_nonneg(s: Seq<char>)
    requires
        all_digits(s),
    ensures
        digits_value(s) >= 0,
    decreases s.len(),
{
    if s.len() > 0 {
        assert(all_digits(s.drop_last())) by {
            assert forall|i: int| 0 <= i < s.drop_last().len() implies is_digit(
                #[trigger] s.drop_last()[i],
            ) by {
                assert(s.drop_last()[i] == s[i]);
            }
        }
        lemma_digits_value_nonneg(s.drop_last());
        assert(is_digit(s[s.len() - 1]));
    }
}

proof fn lemma_digits_value_mono(s: Seq<char>, i: int)
    requires
        all_digits(s),
        0 <= i <= s.len(),
    ensures
        digits_value(s.take(i)) <= digits_value(s),
    decreases s.len() - i,
{
    if i < s.len() {
        let d = s.drop_last();
        assert(all_digits(d)) by {
            assert forall|k: int| 0 <= k < d.len() implies is_digit(#[trigger] d[k]) by {
                assert(d[k] == s[k]);
            }
        }
        lemma_digits_value_mono(d, i);
        assert(d.take(i) =~= s.take(i));
        lemma_digits_value_nonneg(d);
        assert(is_digit(s[s.len() - 1]));
    } else {
        assert(s.take(i) =~= s);
    }
}

/// `u32::from_str` on a character sequence.
pub fn parse_u32_chars(s: &[char]) -> (r: Option<u32>)
    ensures
        r == parse_u32(s@),
{
    let start: usize = if s.len() > 0 && s[0] == '+' {
        1
    } else {
        0
    };
    let ghost d = if s@.len() > 0 && s@[0] == '+' {
        s@.drop_first()
    } else {
        s@
    };
    assert(d =~= s@.skip(start as int));
    if start >= s.len() {
        return None;
    }
    let mut acc: u64 = 0;
    let mut i = start;
    while i < s.len()
        invariant
            start <= i <= s@.len(),
            d == s@.skip(start as int),
            d == (if s@.len() > 0 && s@[0] == '+' {
                s@.drop_first()
            } else {
                s@
            }),
            all_digits(d.take(i - start)),
            acc as int == digits_value(d.take(i - start)),
            acc <= u32::MAX,
        decreases s.len() - i,
    {
        let c = s[i];
        let ghost pre = d.take(i - start);
        assert(d.take(i - start + 1).drop_last() =~= pre);
        assert(d.take(i - start + 1).last() == c);
        if !('0' <= c && c <= '9') {
            assert(!all_digits(d)) by {
                assert(d[i - start] == c);
                assert(!is_digit(d[i - start]));
            }
            assert(parse_u32(s@) == None::<u32>);
            return None;
        }
        let dv = (c as u32 - '0' as u32) as u64;
        acc = acc * 10 + dv;
        assert(acc as int == digits_value(d.take(i - start + 1)));
        assert(all_digits(d.take(i - start + 1))) by {
            assert forall|k: int| 0 <= k < i - start + 1 implies is_digit(
                #[trigger] d.take(i - start + 1)[k],
            ) by {
                if k < i - start {
                    assert(d.take(i - start + 1)[k] == pre[k]);
                }
            }
        }
        i += 1;
        if acc > u32::MAX as u64 {
            proof {
                if all_digits(d) {
                    lemma_digits_value_mono(d, i - start);
                    assert(digits_value(d) > u32::MAX);
                }
            }
            assert(parse_u32(s@) == None::<u32>);
            return None;
        }
    }
    assert(d.take(i - start) =~= d);
    Some(acc as u32)
}

/// Every non-overlapping occurrence of `pat` in `s`, scanned left to right,
/// replaced by `rep` (`str::replace`).
pub fn replace_chars(s: &[char], pat: &[char], rep: &[char]) -> (r: Vec<char>)
    requires
        pat@.len() > 0,
    ensures
        r@ == replace_all(s@, pat@, rep@),
{
    let mut out: Vec<char> = Vec::new();
    let mut i: usize = 0;
    assert(s@.skip(0) =~= s@);
    assert(out@ + replace_all(s@, pat@, rep@) =~= replace_all(s@, pat@, rep@));
    while i < s.len()
        invariant
            pat@.len() > 0,
            i <= s@.len(),
            out@ + replace_all(s@.skip(i as int), pat@, rep@) == replace_all(s@, pat@, rep@),
        decreases s.len() - i,
    {
        let ghost rest = s@.skip(i as int);
        if occurs_at_exec(s, pat, i) {
            assert(pat@.is_prefix_of(rest)) by {
                assert(s@.subrange(i as int, i + pat@.len()) =~= rest.take(pat@.len() as int));
            }
            assert(rest.skip(pat@.len() as int) =~= s@.skip(i + pat@.len()));
            let mut k: usize = 0;
            let ghost out0 = out@;
            while k < rep.len()
                invariant
                    k <= rep@.len(),
                    out@ == out0 + rep@.take(k as int),
                decreases rep.len() - k,
            {
                out.push(rep[k]);
                k += 1;
                assert(out@ =~= out0 + rep@.take(k as int));
            }
            assert(rep@.take(k as int) =~= rep@);
            assert(out@ + replace_all(s@.skip(i + pat@.len()), pat@, rep@) =~= out0 + replace_all(
                rest,
                pat@,
                rep@,
            ));
            i = i + pat.len();
        } else {
            assert(!pat@.is_prefix_of(rest)) by {
                if pat@.is_prefix_of(rest) {
                    assert(s@.subrange(i as int, i + pat@.len()) =~= pat@);
                }
            }
            assert(rest.drop_first() =~= s@.skip(i + 1));
            let ghost out0 = out@;
            out.push(s[i]);
            assert(out@ + replace_all(s@.skip(i + 1), pat@, rep@) =~= out0 + replace_all(
                rest,
                pat@,
                rep@,
            ));
            i += 1;
        }
    }
    assert(s@.skip(i as int) =~= Seq::<char>::empty());
    assert(out@ + Seq::<char>::empty() =~= out@);
    out
}

/// `str::replace` with string-slice pattern and replacement.
pub fn replace_str(s: &[char], pat: &str, rep: &str) -> (r: Vec<char>)
    requires
        pat@.len() > 0,
    ensures
        r@ == replace_all(s@, pat@, rep@),
{
    let p = chars_of(pat);
    let q = chars_of(rep);
    replace_chars(s, p.as_slice(), q.as_slice())
}

/// Index of the last occurrence of `c` in `s` (`str::rfind`).
pub fn rfind_char(s: &[char], c: char) -> (r: Option<usize>)
    ensures
        r matches Some(i) ==> i < s@.len(),
        r == (match last_index_of(s@, c) {
            Some(i) => Some(i as usize),
            None => None,
        }),
{
    let mut j: usize = s.len();
    assert(s@.take(j as int) =~= s@);
    while j > 0
        invariant
            j <= s@.len(),
            last_index_of(s@, c) == last_index_of(s@.take(j as int), c),
        decreases j,
    {
        let ghost t = s@.take(j as int);
        assert(t.drop_last() =~= s@.take(j - 1));
        if s[j - 1] == c {
            return Some(j - 1);
        }
        j -= 1;
    }
    None
}

/// Index of the first occurrence of `c` in `s` (`str::find`).
pub fn find_char(s: &[char], c: char) -> (r: Option<usize>)
    ensures
        r matches Some(i) ==> i < s@.len(),
        r == (match first_index_of(s@, c) {
            Some(i) => Some(i as usize),
            None => None,
        }),
{
    let mut i: usize = 0;
    assert(s@.skip(0) =~= s@);
    while i < s.len()
        invariant
            i <= s@.len(),
            first_index_of(s@, c) == (match first_index_of(s@.skip(i as int), c) {
                Some(k) => Some(k + i),
                None => None,
            }),
        decreases s.len() - i,
    {
        let ghost t = s@.skip(i as int);
        assert(t.drop_first() =~= s@.skip(i + 1));
        if s[i] == c {
            return Some(i);
        }
        i += 1;
    }
    None
}

/// Index of the first occurrence of `p` in `s`, if any (`str::find` with a pattern).
pub open spec fn find_sub(s: Seq<char>, p: Seq<char>) -> Option<int>
    decreases s.len(),
{
    if p.is_prefix_of(s) {
        Some(0)
    } else if s.len() == 0 {
        None
    } else {
        match find_sub(s.drop_first(), p) {
            Some(i) => Some(i + 1),
            None => None,
        }
    }
}

/// The segments of `s` between non-overlapping occurrences of `p`, scanned left
/// to right (`str::split` with a non-empty string pattern).
pub open spec fn split_str(s: Seq<char>, p: Seq<char>) -> Seq<Seq<char>>
    decreases s.len(),
{
    if p.len() == 0 {
        seq![s]
    } else {
        match find_sub(s, p) {
            None => seq![s],
            Some(i) => if 0 <= i && i + p.len() <= s.len() {
                seq![s.take(i)] + split_str(s.skip(i + p.len()), p)
            } else {
                seq![s]
            },
        }
    }
}

/// Segment `k` of `segs`, or the empty sequence when there are not that many.
pub open spec fn seg_or_empty(segs: Seq<Seq<char>>, k: int) -> Seq<char> {
    if 0 <= k < segs.len() {
        segs[k]
    } else {
        Seq::empty()
    }
}

pub proof fn lemma_find_sub_occurs(s: Seq<char>, p: Seq<char>)
    ensures
        find_sub(s, p) matches Some(i) ==> occurs_at(s, p, i) && forall|k: int|
            0 <= k < i ==> !occurs_at(s, p, k),
        find_sub(s, p) is None ==> forall|k: int| !occurs_at(s, p, k),
    decreases s.len(),
{
    if p.is_prefix_of(s) {
        assert(s.subrange(0, p.len() as int) =~= p);
    } else {
        assert(!occurs_at(s, p, 0)) by {
            if occurs_at(s, p, 0) {
                assert(s.subrange(0, p.len() as int) == p);
                assert(p.is_prefix_of(s)) by {
                    assert forall|j: int| 0 <= j < p.len() implies p[j] == s[j] by {
                        assert(s.subrange(0, p.len() as int)[j] == s[j]);
                    }
                }
            }
        }
        if s.len() > 0 {
            let t = s.drop_first();
            lemma_find_sub_occurs(t, p);
            assert forall|k: int| 1 <= k implies occurs_at(s, p, k) == occurs_at(t, p, k - 1) by {
                if occurs_at(s, p, k) {
                    assert(t.subrange(k - 1, k - 1 + p.len()) =~= s.subrange(k, k + p.len()));
                }
                if occurs_at(t, p, k - 1) {
                    assert(t.subrange(k - 1, k - 1 + p.len()) =~= s.subrange(k, k + p.len()));
                }
            }
            if let Some(i) = find_sub(t, p) {
                assert(occurs_at(s, p, i + 1));
                assert forall|k: int| 0 <= k < i + 1 implies !occurs_at(s, p, k) by {
                    if k >= 1 {
                        assert(!occurs_at(t, p, k - 1));
                    }
                }
            } else {
                assert forall|k: int| !occurs_at(s, p, k) by {
                    if k >= 1 {
                        assert(!occurs_at(t, p, k - 1));
                    }
                }
            }
        } else {
            assert forall|k: int| !occurs_at(s, p, k) by {
                if occurs_at(s, p, k) {
                    assert(p.len() == 0);
                    assert(p.is_prefix_of(s));
                }
            }
        }
    }
}

/// First index of `p` in `s`.
pub fn find_sub_exec(s: &[char], p: &[char]) -> (r: Option<usize>)
    ensures
        r matches Some(i) ==> i + p@.len() <= s@.len() && find_sub(s@, p@) == Some(i as int),
        r is None ==> find_sub(s@, p@) is None,
{
    proof {
        lemma_find_sub_occurs(s@, p@);
    }
    let mut i: usize = 0;
    while i < s.len()
        invariant
            i <= s@.len(),
            forall|k: int| 0 <= k < i ==> !occurs_at(s@, p@, k),
        decreases s.len() - i,
    {
        if occurs_at_exec(s, p, i) {
            proof {
                lemma_find_sub_occurs(s@, p@);
                if let Some(j) = find_sub(s@, p@) {
                    if j < i {
                        assert(!occurs_at(s@, p@, j));
                    }
                    if j > i {
                        assert(!occurs_at(s@, p@, i as int));
                    }
                }
            }
            return Some(i);
        }
        i += 1;
    }
    if occurs_at_exec(s, p, i) {
        proof {
            if let Some(j) = find_sub(s@, p@) {
                if j < i {
                    assert(!occurs_at(s@, p@, j));
                }
                if j > i {
                    assert(!occurs_at(s@, p@, i as int));
                }
            }
        }
        return Some(i);
    }
    proof {
        if let Some(j) = find_sub(s@, p@) {
            if j < i {
                assert(!occurs_at(s@, p@, j));
            }
            assert(occurs_at(s@, p@, j));
        }
    }
    None
}

pub proof fn lemma_last_index_of(s: Seq<char>, c: char)
    ensures
        last_index_of(s, c) matches Some(i) ==> 0 <= i < s.len() && s[i] == c && forall|k: int|
            i < k < s.len() ==> s[k] != c,
        last_index_of(s, c) is None ==> forall|k: int| 0 <= k < s.len() ==> s[k] != c,
    decreases s.len(),
{
    if s.len() > 0 && s.last() != c {
        let t = s.drop_last();
        lemma_last_index_of(t, c);
        assert forall|k: int| 0 <= k < t.len() implies t[k] == s[k] by {}
        if let Some(i) = last_index_of(t, c) {
            assert forall|k: int| i < k < s.len() implies s[k] != c by {
                if k < t.len() {
                    assert(t[k] == s[k]);
                }
            }
        } else {
            assert forall|k: int| 0 <= k < s.len() implies s[k] != c by {
                if k < t.len() {
                    assert(t[k] == s[k]);
                }
            }
        }
    }
}

pub proof fn lemma_first_index_of(s: Seq<char>, c: char)
    ensures
        first_index_of(s, c) matches Some(i) ==> 0 <= i < s.len() && s[i] == c && forall|k: int|
            0 <= k < i ==> s[k] != c,
        first_index_of(s, c) is None ==> forall|k: int| 0 <= k < s.len() ==> s[k] != c,
    decreases s.len(),
{
    if s.len() > 0 && s[0] != c {
        let t = s.drop_first();
        lemma_first_index_of(t, c);
        if let Some(i) = first_index_of(t, c) {
            assert(s[i + 1] == t[i]);
            assert forall|k: int| 0 <= k < i + 1 implies s[k] != c by {
                if k > 0 {
                    assert(t[k - 1] == s[k]);
                }
            }
        } else {
            assert forall|k: int| 0 <= k < s.len() implies s[k] != c by {
                if k > 0 {
                    assert(t[k - 1] == s[k]);
                }
            }
        }
    }
}

/// Appends the characters of `s` to `out`.
pub fn push_str(out: &mut Vec<char>, s: &str)
    ensures
        final(out)@ == old(out)@ + s@,
{
    let v = chars_of(s);
    push_chars(out, v.as_slice());
}

/// Appends `v` to `out`.
pub fn push_chars(out: &mut Vec<char>, v: &[char])
    ensures
        final(out)@ == old(out)@ + v@,
{
    let ghost o = out@;
    let mut i: usize = 0;
    while i < v.len()
        invariant
            i <= v@.len(),
            out@ == o + v@.take(i as int),
        decreases v.len() - i,
    {
        out.push(v[i]);
        i += 1;
        assert(out@ =~= o + v@.take(i as int));
    }
    assert(v@.take(i as int) =~= v@);
}

/// The decimal digits of a natural number.
pub open spec fn decimal(n: nat) -> Seq<char>
    decreases n,
{
    if n < 10 {
        seq![((n + '0' as nat) as u32) as char]
    } else {
        decimal(n / 10).push((((n % 10) + '0' as nat) as u32) as char)
    }
}

fn digit_char(d: usize) -> (c: char)
    requires
        d < 10,
    ensures
        c == ((d + '0' as nat) as u32) as char,
{
    if d == 0 { '0' } else if d == 1 { '1' } else if d == 2 { '2' } else if d == 3 { '3' }
    else if d == 4 { '4' } else if d == 5 { '5' } else if d == 6 { '6' } else if d == 7 { '7' }
    else if d == 8 { '8' } else { '9' }
}

/// The decimal form of `n` (what `format!("{}", n)` writes).
pub fn decimal_chars(n: usize) -> (r: Vec<char>)
    ensures
        r@ == decimal(n as nat),
    decreases n,
{
    if n < 10 {
        let r = vec![digit_char(n)];
        assert(r@ =~= decimal(n as nat));
        r
    } else {
        let mut r = decimal_chars(n / 10);
        r.push(digit_char(n % 10));
        r
    }
}

/// `s` with every `a` replaced by `b`.
pub open spec fn replace_char(s: Seq<char>, a: char, b: char) -> Seq<char> {
    s.map_values(|c: char| if c == a { b } else { c })
}

/// `s` with every `a` replaced by `b` (`str::replace` with a character pattern).
pub fn replace_char_exec(s: &[char], a: char, b: char) -> (r: Vec<char>)
    ensures
        r@ == replace_char(s@, a, b),
{
    let mut r: Vec<char> = Vec::new();
    let mut i: usize = 0;
    while i < s.len()
        invariant
            i <= s@.len(),
            r@ == replace_char(s@.take(i as int), a, b),
        decreases s.len() - i,
    {
        let c = if s[i] == a { b } else { s[i] };
        r.push(c);
        i += 1;
        assert(r@ =~= replace_char(s@.take(i as int), a, b));
    }
    assert(s@.take(i as int) =~= s@);
    r
}

/// `s` without its leading `c`s (`str::trim_start_matches` with a character).
pub open spec fn trim_start_char(s: Seq<char>, c: char) -> Seq<char>
    decreases s.len(),
{
    if s.len() > 0 && s[0] == c {
        trim_start_char(s.drop_first(), c)
    } else {
        s
    }
}

/// `s` without its leading `c`s.
pub fn trim_start_char_exec(s: &[char], c: char) -> (r: Vec<char>)
    ensures
        r@ == trim_start_char(s@, c),
{
    let mut i: usize = 0;
    assert(s@.skip(0) =~= s@);
    while i < s.len() && s[i] == c
        invariant
            i <= s@.len(),
            trim_start_char(s@, c) == trim_start_char(s@.skip(i as int), c),
        decreases s.len() - i,
    {
        assert(s@.skip(i as int).drop_first() =~= s@.skip(i + 1));
        i += 1;
    }
    let n = s.len();
    assert(s@.skip(i as int) =~= s@.subrange(i as int, n as int));
    sub_chars(s, i, n)
}

/// `a` comes before `b` in lexicographic order of characters (the order of
/// `String`'s `Ord`, since UTF-8 keeps the order of code points).
pub open spec fn lex_lt(a: Seq<char>, b: Seq<char>) -> bool
    decreases a.len(),
{
    if a.len() == 0 {
        b.len() > 0
    } else if b.len() == 0 {
        false
    } else if a[0] < b[0] {
        true
    } else if a[0] > b[0] {
        false
    } else {
        lex_lt(a.drop_first(), b.drop_first())
    }
}

proof fn lemma_lex_irrefl(a: Seq<char>)
    ensures
        !lex_lt(a, a),
    decreases a.len(),
{
    if a.len() > 0 {
        lemma_lex_irrefl(a.drop_first());
    }
}

/// The lexicographic order is strict and total.
pub proof fn lemma_lex_total(a: Seq<char>, b: Seq<char>)
    ensures
        !(lex_lt(a, b) && lex_lt(b, a)),
        a != b ==> lex_lt(a, b) || lex_lt(b, a),
        !lex_lt(a, a),
    decreases a.len(),
{
    lemma_lex_irrefl(a);
    if a.len() > 0 && b.len() > 0 {
        if a[0] == b[0] {
            lemma_lex_total(a.drop_first(), b.drop_first());
            if a != b {
                assert(a.drop_first() != b.drop_first()) by {
                    if a.drop_first() == b.drop_first() {
                        assert(a =~= seq![a[0]] + a.drop_first());
                        assert(b =~= seq![b[0]] + b.drop_first());
                    }
                }
            }
        }
    } else if a.len() == 0 && b.len() == 0 {
        assert(a =~= b);
    }
}

/// The lexicographic order is transitive.
pub proof fn lemma_lex_trans(a: Seq<char>, b: Seq<char>, c: Seq<char>)
    requires
        lex_lt(a, b),
        lex_lt(b, c),
    ensures
        lex_lt(a, c),
    decreases a.len(),
{
    if a.len() > 0 && b.len() > 0 && c.len() > 0 && a[0] == b[0] && b[0] == c[0] {
        lemma_lex_trans(a.drop_first(), b.drop_first(), c.drop_first());
    }
}

/// Whether `a` comes before `b` in lexicographic order.
pub fn lex_less(a: &[char], b: &[char]) -> (r: bool)
    ensures
        r == lex_lt(a@, b@),
{
    let mut i: usize = 0;
    assert(a@.skip(0) =~= a@);
    assert(b@.skip(0) =~= b@);
    while i < a.len() && i < b.len() && a[i] == b[i]
        invariant
            i <= a@.len(),
            i <= b@.len(),
            lex_lt(a@, b@) == lex_lt(a@.skip(i as int), b@.skip(i as int)),
        decreases a.len() - i,
    {
        assert(a@.skip(i as int).drop_first() =~= a@.skip(i + 1));
        assert(b@.skip(i as int).drop_first() =~= b@.skip(i + 1));
        i += 1;
    }
    if i == a.len() {
        i < b.len()
    } else if i == b.len() {
        false
    } else {
        assert(a@.skip(i as int)[0] == a@[i as int]);
        assert(b@.skip(i as int)[0] == b@[i as int]);
        a[i] < b[i]
    }
}

/// `s` is in strictly ascending lexicographic order (so without repeats).
pub open spec fn sorted_unique(s: Seq<Seq<char>>) -> bool {
    forall|i: int, j: int| 0 <= i < j < s.len() ==> lex_lt(#[trigger] s[i], #[trigger] s[j])
}

/// Adds `x` to the sorted strings `v`, where it is new, keeping them sorted.
pub fn insert_sorted(v: &mut Vec<String>, x: &str)
    requires
        sorted_unique(str_views(old(v)@)),
    ensures
        sorted_unique(str_views(final(v)@)),
        str_views(final(v)@).to_set() == str_views(old(v)@).to_set().insert(x@),
{
    let xv = chars_of(x);
    let ghost old_v = str_views(v@);
    let mut k: usize = 0;
    while k < v.len() && lex_less(chars_of(v[k].as_str()).as_slice(), xv.as_slice())
        invariant
            k <= v@.len(),
            xv@ == x@,
            str_views(v@) == old_v,
            forall|i: int| 0 <= i < k ==> lex_lt(#[trigger] old_v[i], x@),
        decreases v.len() - k,
    {
        k += 1;
    }
    proof {
        lemma_lex_total(x@, x@);
    }
    if k < v.len() {
        let e = chars_of(v[k].as_str());
        if chars_eq(e.as_slice(), xv.as_slice()) {
            assert(old_v[k as int] == x@);
            assert(old_v.to_set().insert(x@) =~= old_v.to_set());
            return;
        }
        proof {
            lemma_lex_total(old_v[k as int], x@);
        }
    }
    let ghost kk = k as int;
    v.insert(k, x.to_string());
    proof {
        let nv = str_views(v@);
        assert(nv =~= old_v.take(kk).push(x@) + old_v.skip(kk));
        assert forall|i: int, j: int| 0 <= i < j < nv.len() implies lex_lt(#[trigger] nv[i], #[trigger] nv[j]) by {
            if j < kk {
                assert(nv[i] == old_v[i] && nv[j] == old_v[j]);
            } else if j == kk {
                assert(nv[i] == old_v[i]);
            } else if i == kk {
                assert(nv[j] == old_v[j - 1]);
                if j - 1 > kk {
                    assert(lex_lt(old_v[kk], old_v[j - 1]));
                    lemma_lex_trans(x@, old_v[kk], old_v[j - 1]);
                }
            } else if i < kk {
                assert(nv[i] == old_v[i] && nv[j] == old_v[j - 1]);
            } else {
                assert(nv[i] == old_v[i - 1] && nv[j] == old_v[j - 1]);
            }
        }
        assert forall|y: Seq<char>| nv.to_set().contains(y) <==> old_v.to_set().insert(x@).contains(y) by {
            if nv.contains(y) {
                let i = choose|i: int| 0 <= i < nv.len() && nv[i] == y;
                if i < kk {
                    assert(old_v[i] == y);
                } else if i > kk {
                    assert(old_v[i - 1] == y);
                }
            }
            if old_v.contains(y) {
                let i = choose|i: int| 0 <= i < old_v.len() && old_v[i] == y;
                if i < kk {
                    assert(nv[i] == y);
                } else {
                    assert(nv[i + 1] == y);
                }
            }
            if y == x@ {
                assert(nv[kk] == y);
            }
        }
        assert(nv.to_set() =~= old_v.to_set().insert(x@));
    }
}

} // verus!
