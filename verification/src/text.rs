//! Text primitives shared by the pipeline stages: case folding, whitespace,
//! substring search and trimming, all stated over sequences of characters.

use vstd::prelude::*;
use vstd::string::{StrSliceExecFns, StringExecFns};

verus! {

/// The lowercase form of an ASCII character; other characters are unchanged.
pub open spec fn ascii_lower(c: char) -> char {
    if 'A' <= c <= 'Z' {
        ((c as u32) + 32) as char
    } else {
        c
    }
}

/// What `str::to_lowercase` yields for text that holds a non-ASCII character.
pub uninterp spec fn unicode_lowercase(s: Seq<char>) -> Seq<char>;

/// The lowercase form of a text. On ASCII text every capital letter is
/// replaced by its small letter; on other text it is the Unicode lowercase
/// mapping, which this library leaves to the standard library.
pub open spec fn lowercase(s: Seq<char>) -> Seq<char> {
    if vstd::utf8::is_ascii_chars(s) {
        s.map_values(|c: char| ascii_lower(c))
    } else {
        unicode_lowercase(s)
    }
}

/// `str::to_lowercase` from the standard library. Its result depends on the
/// text alone. The contract claims that on pure ASCII text it replaces `A`..`Z`
/// by `a`..`z` and keeps every other character, which is the Unicode
/// lowercase mapping restricted to ASCII; for any other text it only names
/// the result.
#[verifier::external_body]
pub(crate) fn to_lowercase(s: &str) -> (lower: String)
    ensures
        lower@ == (if vstd::utf8::is_ascii_chars(s@) {
            s@.map_values(|c: char| ascii_lower(c))
        } else {
            unicode_lowercase(s@)
        }),
{
    s.to_lowercase()
}

/// The characters of a text, in order.
pub fn chars_of(s: &str) -> (chars: Vec<char>)
    ensures
        chars@ == s@,
{
    let mut chars: Vec<char> = Vec::new();
    let source = s.chars();
    for c in it: source
        invariant
            chars@ == it.seq().take(it.index()),
            it.seq() == s@,
    {
        chars.push(c);
    }
    chars
}

/// Whether two string slices hold the same characters.
pub(crate) fn str_eq(a: &str, b: &str) -> (same: bool)
    ensures
        same == (a@ == b@),
{
    if a.as_bytes().len() != b.as_bytes().len() {
        return false;
    }
    let left = chars_of(a);
    let right = chars_of(b);
    if left.len() != right.len() {
        return false;
    }
    let mut i: usize = 0;
    while i < left.len()
        invariant
            i <= left.len(),
            left.len() == right.len(),
            left@ == a@,
            right@ == b@,
            forall|j: int| 0 <= j < i ==> left@[j] == right@[j],
        decreases left.len() - i,
    {
        if left[i] != right[i] {
            return false;
        }
        i += 1;
    }
    assert(left@ =~= right@);
    true
}

/// Unicode's `White_Space` property.
pub open spec fn is_whitespace(c: char) -> bool {
    let n = c as u32;
    ||| 0x09 <= n <= 0x0D
    ||| n == 0x20
    ||| n == 0x85
    ||| n == 0xA0
    ||| n == 0x1680
    ||| 0x2000 <= n <= 0x200A
    ||| n == 0x2028
    ||| n == 0x2029
    ||| n == 0x202F
    ||| n == 0x205F
    ||| n == 0x3000
}

/// Whether a character is whitespace.
pub fn char_is_whitespace(c: char) -> (white: bool)
    ensures
        white == is_whitespace(c),
{
    let n: u32 = c as u32;
    (0x09 <= n && n <= 0x0D) || n == 0x20 || n == 0x85 || n == 0xA0 || n == 0x1680 || (0x2000 <= n
        && n <= 0x200A) || n == 0x2028 || n == 0x2029 || n == 0x202F || n == 0x205F || n == 0x3000
}

/// Whether `pat` occurs in `hay` starting at position `at`.
pub open spec fn matches_at(hay: Seq<char>, pat: Seq<char>, at: int) -> bool {
    &&& 0 <= at
    &&& at + pat.len() <= hay.len()
    &&& hay.subrange(at, at + pat.len()) == pat
}

/// The first position at or after `from` where `pat` occurs in `hay`.
pub open spec fn first_match(hay: Seq<char>, pat: Seq<char>, from: int) -> Option<int>
    decreases hay.len() + 1 - from,
{
    if from < 0 || from + pat.len() > hay.len() {
        None
    } else if matches_at(hay, pat, from) {
        Some(from)
    } else {
        first_match(hay, pat, from + 1)
    }
}

/// `first_match` finds an occurrence, and no occurrence lies before it.
pub proof fn first_match_is_least(hay: Seq<char>, pat: Seq<char>, from: int)
    requires
        0 <= from,
    ensures
        match first_match(hay, pat, from) {
            Some(at) => from <= at && matches_at(hay, pat, at) && forall|k: int|
                from <= k < at ==> !matches_at(hay, pat, k),
            None => forall|k: int| from <= k ==> !matches_at(hay, pat, k),
        },
    decreases hay.len() + 1 - from,
{
    if from + pat.len() > hay.len() {
    } else if matches_at(hay, pat, from) {
    } else {
        first_match_is_least(hay, pat, from + 1);
    }
}

/// Whether `pat` occurs in `hay` at position `at`.
pub fn occurs_at(hay: &Vec<char>, pat: &Vec<char>, at: usize) -> (hit: bool)
    ensures
        hit == matches_at(hay@, pat@, at as int),
{
    if pat.len() > hay.len() || at > hay.len() - pat.len() {
        return false;
    }
    let mut k: usize = 0;
    while k < pat.len()
        invariant
            k <= pat.len(),
            at + pat.len() <= hay.len(),
            forall|j: int| 0 <= j < k ==> hay@[at + j] == pat@[j],
        decreases pat.len() - k,
    {
        if hay[at + k] != pat[k] {
            assert(hay@.subrange(at as int, at + pat.len())[k as int] != pat@[k as int]);
            return false;
        }
        k += 1;
    }
    assert(hay@.subrange(at as int, at + pat.len()) =~= pat@);
    true
}

/// The first position at or after `from` where `pat` occurs in `hay`.
pub fn find_from(hay: &Vec<char>, pat: &Vec<char>, from: usize) -> (found: Option<usize>)
    ensures
        match found {
            Some(at) => first_match(hay@, pat@, from as int) == Some(at as int) && from <= at
                && at + pat.len() <= hay.len(),
            None => first_match(hay@, pat@, from as int) is None,
        },
        match found {
            Some(at) => matches_at(hay@, pat@, at as int) && forall|k: int|
                from <= k < at ==> !matches_at(hay@, pat@, k),
            None => forall|k: int| from <= k ==> !matches_at(hay@, pat@, k),
        },
{
    if pat.len() > hay.len() || from > hay.len() - pat.len() {
        proof {
            first_match_is_least(hay@, pat@, from as int);
        }
        return None;
    }
    let last: usize = hay.len() - pat.len();
    let mut at: usize = from;
    loop
        invariant
            from <= at <= last,
            last == hay.len() - pat.len(),
            first_match(hay@, pat@, from as int) == first_match(hay@, pat@, at as int),
        decreases last - at,
    {
        if occurs_at(hay, pat, at) {
            proof {
                first_match_is_least(hay@, pat@, from as int);
            }
            return Some(at);
        }
        if at == last {
            assert(first_match(hay@, pat@, at + 1) is None);
            proof {
                first_match_is_least(hay@, pat@, from as int);
            }
            return None;
        }
        at += 1;
    }
}

/// The last position below `to` at which `c` stands in `s`.
pub open spec fn last_index_of(s: Seq<char>, c: char, to: int) -> Option<int>
    decreases to,
{
    if to <= 0 || to > s.len() {
        None
    } else if s[to - 1] == c {
        Some(to - 1)
    } else {
        last_index_of(s, c, to - 1)
    }
}

/// `last_index_of` finds the character, and it does not occur after that.
pub proof fn last_index_is_greatest(s: Seq<char>, c: char, to: int)
    requires
        0 <= to <= s.len(),
    ensures
        match last_index_of(s, c, to) {
            Some(at) => 0 <= at < to && s[at] == c && forall|k: int| at < k < to ==> s[k] != c,
            None => forall|k: int| 0 <= k < to ==> s[k] != c,
        },
    decreases to,
{
    if to > 0 && s[to - 1] != c {
        last_index_is_greatest(s, c, to - 1);
    }
}

/// The last position at which `c` stands in `hay`.
pub fn rfind_char(hay: &Vec<char>, c: char) -> (found: Option<usize>)
    ensures
        match found {
            Some(at) => last_index_of(hay@, c, hay@.len() as int) == Some(at as int) && at
                < hay.len(),
            None => last_index_of(hay@, c, hay@.len() as int) is None,
        },
        match found {
            Some(at) => hay@[at as int] == c && forall|k: int| at < k < hay@.len() ==> hay@[k] != c,
            None => forall|k: int| 0 <= k < hay@.len() ==> hay@[k] != c,
        },
{
    let mut to: usize = hay.len();
    while to > 0
        invariant
            to <= hay.len(),
            last_index_of(hay@, c, hay@.len() as int) == last_index_of(hay@, c, to as int),
        decreases to,
    {
        if hay[to - 1] == c {
            proof {
                last_index_is_greatest(hay@, c, hay@.len() as int);
            }
            return Some(to - 1);
        }
        to -= 1;
    }
    proof {
        last_index_is_greatest(hay@, c, hay@.len() as int);
    }
    None
}

/// Where the text in the window `lo..hi` of `s` starts once leading
/// whitespace is skipped.
pub open spec fn trim_start(s: Seq<char>, lo: int, hi: int) -> int
    decreases hi - lo,
{
    if 0 <= lo < hi <= s.len() && is_whitespace(s[lo]) {
        trim_start(s, lo + 1, hi)
    } else {
        lo
    }
}

/// Where the text in the window `lo..hi` of `s` ends once trailing
/// whitespace is dropped.
pub open spec fn trim_end(s: Seq<char>, lo: int, hi: int) -> int
    decreases hi - lo,
{
    if 0 <= lo < hi <= s.len() && is_whitespace(s[hi - 1]) {
        trim_end(s, lo, hi - 1)
    } else {
        hi
    }
}

/// A text without its leading and trailing whitespace.
pub open spec fn trimmed(s: Seq<char>) -> Seq<char> {
    let start = trim_start(s, 0, s.len() as int);
    s.subrange(start, trim_end(s, start, s.len() as int))
}

/// Trimming keeps a contiguous piece: everything before it and after it is
/// whitespace, and the piece neither starts nor ends with whitespace.
pub proof fn trim_bounds(s: Seq<char>, lo: int, hi: int)
    requires
        0 <= lo <= hi <= s.len(),
    ensures
        lo <= trim_start(s, lo, hi) <= hi,
        forall|k: int| lo <= k < trim_start(s, lo, hi) ==> is_whitespace(s[k]),
        trim_start(s, lo, hi) < hi ==> !is_whitespace(s[trim_start(s, lo, hi)]),
        lo <= trim_end(s, lo, hi) <= hi,
        forall|k: int| trim_end(s, lo, hi) <= k < hi ==> is_whitespace(s[k]),
        lo < trim_end(s, lo, hi) ==> !is_whitespace(s[trim_end(s, lo, hi) - 1]),
    decreases hi - lo,
{
    if lo < hi {
        if is_whitespace(s[lo]) {
            trim_bounds(s, lo + 1, hi);
        }
        if is_whitespace(s[hi - 1]) {
            trim_bounds(s, lo, hi - 1);
        }
    }
}

proof fn trim_start_of_window(s: Seq<char>, lo: int, hi: int, k: int)
    requires
        0 <= lo <= k <= hi <= s.len(),
    ensures
        trim_start(s.subrange(lo, hi), k - lo, hi - lo) == trim_start(s, k, hi) - lo,
    decreases hi - k,
{
    if k < hi && is_whitespace(s[k]) {
        trim_start_of_window(s, lo, hi, k + 1);
    }
}

proof fn trim_end_of_window(s: Seq<char>, lo: int, hi: int, a: int, k: int)
    requires
        0 <= lo <= a <= k <= hi <= s.len(),
    ensures
        trim_end(s.subrange(lo, hi), a - lo, k - lo) == trim_end(s, a, k) - lo,
    decreases k - a,
{
    if a < k && is_whitespace(s[k - 1]) {
        trim_end_of_window(s, lo, hi, a, k - 1);
    }
}

/// The bounds of the window `lo..hi` of `chars` once whitespace is trimmed
/// from both of its ends.
pub fn trim_window(chars: &Vec<char>, lo: usize, hi: usize) -> (span: (usize, usize))
    requires
        lo <= hi <= chars.len(),
    ensures
        lo <= span.0 <= span.1 <= hi,
        chars@.subrange(span.0 as int, span.1 as int) == trimmed(chars@.subrange(lo as int, hi as int)),
        forall|k: int| lo <= k < span.0 || span.1 <= k < hi ==> is_whitespace(chars@[k]),
        span.0 < span.1 ==> !is_whitespace(chars@[span.0 as int]) && !is_whitespace(
            chars@[span.1 - 1],
        ),
{
    proof {
        trim_bounds(chars@, lo as int, hi as int);
        trim_bounds(chars@, trim_start(chars@, lo as int, hi as int), hi as int);
    }
    let mut start: usize = lo;
    while start < hi && char_is_whitespace(chars[start])
        invariant
            lo <= start <= hi <= chars.len(),
            trim_start(chars@, lo as int, hi as int) == trim_start(chars@, start as int, hi as int),
        decreases hi - start,
    {
        start += 1;
    }
    let mut end: usize = hi;
    while start < end && char_is_whitespace(chars[end - 1])
        invariant
            start <= end <= hi <= chars.len(),
            trim_end(chars@, start as int, hi as int) == trim_end(chars@, start as int, end as int),
        decreases end - start,
    {
        end -= 1;
    }
    proof {
        let window = chars@.subrange(lo as int, hi as int);
        trim_start_of_window(chars@, lo as int, hi as int, lo as int);
        trim_end_of_window(chars@, lo as int, hi as int, start as int, hi as int);
        assert(window.subrange(start - lo, end - lo) =~= chars@.subrange(start as int, end as int));
    }
    (start, end)
}

/// A text without its leading and trailing whitespace.
pub fn trim(s: &str) -> (inner: &str)
    ensures
        inner@ == trimmed(s@),
{
    let chars = chars_of(s);
    let (lo, hi) = trim_window(&chars, 0, chars.len());
    proof {
        assert(chars@.subrange(0, chars@.len() as int) =~= chars@);
    }
    s.substring_char(lo, hi)
}

/// Whether `word` occurs somewhere in `text`.
pub open spec fn mentions(text: Seq<char>, word: Seq<char>) -> bool {
    exists|at: int| matches_at(text, word, at)
}

/// Whether `word` occurs somewhere in `text`.
pub fn contains(text: &Vec<char>, word: &Vec<char>) -> (found: bool)
    ensures
        found == mentions(text@, word@),
{
    find_from(text, word, 0).is_some()
}

/// The texts that a sequence of strings holds.
pub open spec fn string_views(strings: Seq<String>) -> Seq<Seq<char>> {
    strings.map_values(|s: String| s@)
}

/// The parts written one after the other, with `sep` between each two.
pub open spec fn joined(parts: Seq<Seq<char>>, sep: Seq<char>) -> Seq<char>
    decreases parts.len(),
{
    if parts.len() == 0 {
        Seq::empty()
    } else if parts.len() == 1 {
        parts[0]
    } else {
        joined(parts.drop_last(), sep) + sep + parts.last()
    }
}

/// Writes the parts one after the other, with `sep` between each two.
pub fn join(parts: &Vec<String>, sep: &str) -> (text: String)
    ensures
        text@ == joined(string_views(parts@), sep@),
{
    let mut text = String::new();
    let mut i: usize = 0;
    while i < parts.len()
        invariant
            i <= parts.len(),
            text@ == joined(string_views(parts@.take(i as int)), sep@),
        decreases parts.len() - i,
    {
        let ghost earlier = string_views(parts@.take(i as int));
        let ghost now = string_views(parts@.take(i + 1));
        if i > 0 {
            text.append(sep);
        }
        text.append(parts[i].as_str());
        proof {
            assert(now.drop_last() =~= earlier);
            assert(now.last() == parts@[i as int]@);
            assert(text@ =~= joined(now, sep@));
        }
        i += 1;
    }
    proof {
        assert(parts@.take(i as int) =~= parts@);
    }
    text
}

/// The character that writes the digit `d`.
pub open spec fn digit(d: nat) -> char {
    (48 + d) as char
}

/// The decimal numeral of `n`.
pub open spec fn decimal_text(n: nat) -> Seq<char>
    decreases n,
{
    if n < 10 {
        seq![digit(n)]
    } else {
        decimal_text(n / 10).push(digit(n % 10))
    }
}

fn digit_str(d: u64) -> (text: &'static str)
    requires
        d < 10,
    ensures
        text@ == seq![digit(d as nat)],
{
    proof {
        reveal_strlit("0");
        reveal_strlit("1");
        reveal_strlit("2");
        reveal_strlit("3");
        reveal_strlit("4");
        reveal_strlit("5");
        reveal_strlit("6");
        reveal_strlit("7");
        reveal_strlit("8");
        reveal_strlit("9");
    }
    let text = if d == 0 {
        "0"
    } else if d == 1 {
        "1"
    } else if d == 2 {
        "2"
    } else if d == 3 {
        "3"
    } else if d == 4 {
        "4"
    } else if d == 5 {
        "5"
    } else if d == 6 {
        "6"
    } else if d == 7 {
        "7"
    } else if d == 8 {
        "8"
    } else {
        "9"
    };
    assert(text@ =~= seq![digit(d as nat)]);
    text
}

/// Writes a number in decimal.
pub fn decimal(n: u64) -> (text: String)
    ensures
        text@ == decimal_text(n as nat),
    decreases n,
{
    if n < 10 {
        digit_str(n).to_owned()
    } else {
        let mut text = decimal(n / 10);
        text.append(digit_str(n % 10));
        assert(text@ =~= decimal_text(n as nat));
        text
    }
}

/// Whether text `a` comes before text `b` in the order of the dictionary,
/// characters taken by their code points, comparing from position `from` on.
pub open spec fn text_before_from(a: Seq<char>, b: Seq<char>, from: int) -> bool
    decreases a.len() - from,
{
    if from < 0 || from >= b.len() {
        false
    } else if from >= a.len() {
        true
    } else if a[from] != b[from] {
        (a[from] as u32) < (b[from] as u32)
    } else {
        text_before_from(a, b, from + 1)
    }
}

/// Whether text `a` comes before text `b` in the order of the dictionary,
/// characters taken by their code points.
pub open spec fn text_before(a: Seq<char>, b: Seq<char>) -> bool {
    text_before_from(a, b, 0)
}

proof fn text_order_total_from(a: Seq<char>, b: Seq<char>, from: int)
    requires
        0 <= from <= a.len(),
        from <= b.len(),
        a.take(from) == b.take(from),
    ensures
        text_before_from(a, b, from) || text_before_from(b, a, from) || a == b,
    decreases a.len() - from,
{
    if from >= a.len() || from >= b.len() {
        if a.len() == b.len() {
            assert(a.take(from) =~= a);
            assert(b.take(from) =~= b);
        }
    } else if a[from] == b[from] {
        assert(a.take(from + 1) =~= a.take(from).push(a[from]));
        assert(b.take(from + 1) =~= b.take(from).push(b[from]));
        text_order_total_from(a, b, from + 1);
    } else {
        vstd::utf8::char_u32_cast(a[from], a[from] as u32);
        vstd::utf8::char_u32_cast(b[from], b[from] as u32);
    }
}

proof fn text_order_transitive_from(a: Seq<char>, b: Seq<char>, c: Seq<char>, from: int)
    requires
        0 <= from,
        text_before_from(a, b, from),
        text_before_from(b, c, from),
    ensures
        text_before_from(a, c, from),
    decreases a.len() - from,
{
    if from < a.len() && a[from] == b[from] && b[from] == c[from] {
        text_order_transitive_from(a, b, c, from + 1);
    }
}

proof fn text_order_irreflexive_from(a: Seq<char>, from: int)
    ensures
        !text_before_from(a, a, from),
    decreases a.len() - from,
{
    if 0 <= from < a.len() {
        text_order_irreflexive_from(a, from + 1);
    }
}

/// The order of texts is a strict total order: of two different texts one
/// comes before the other, no text comes before itself, and what comes
/// before a text comes before everything after it.
pub proof fn text_order_is_strict_and_total(a: Seq<char>, b: Seq<char>, c: Seq<char>)
    ensures
        text_before(a, b) || text_before(b, a) || a == b,
        !text_before(a, a),
        text_before(a, b) && text_before(b, c) ==> text_before(a, c),
{
    assert(a.take(0) =~= b.take(0));
    text_order_total_from(a, b, 0);
    text_order_irreflexive_from(a, 0);
    if text_before(a, b) && text_before(b, c) {
        text_order_transitive_from(a, b, c, 0);
    }
}

/// Whether text `a` comes before text `b` in the order of the dictionary.
pub fn comes_before(a: &Vec<char>, b: &Vec<char>) -> (before: bool)
    ensures
        before == text_before(a@, b@),
{
    let mut i: usize = 0;
    while i < a.len() && i < b.len()
        invariant
            i <= a.len(),
            i <= b.len(),
            text_before(a@, b@) == text_before_from(a@, b@, i as int),
        decreases a.len() - i,
    {
        if a[i] != b[i] {
            return (a[i] as u32) < (b[i] as u32);
        }
        i += 1;
    }
    i < b.len()
}

} // verus!
