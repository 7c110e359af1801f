//! Searching and tokenising sequences of characters.

use vstd::prelude::*;

verus! {

/// Whether `c` has the Unicode property White_Space.
pub open spec fn is_whitespace(c: char) -> bool {
    let n = c as u32;
    ||| 0x09 <= n <= 0x0d
    ||| n == 0x20
    ||| n == 0x85
    ||| n == 0xa0
    ||| n == 0x1680
    ||| 0x2000 <= n <= 0x200a
    ||| n == 0x2028
    ||| n == 0x2029
    ||| n == 0x202f
    ||| n == 0x205f
    ||| n == 0x3000
}

/// Whether `c` is white space.
pub fn is_space(c: char) -> (space: bool)
    ensures
        space == is_whitespace(c),
{
    let n: u32 = c as u32;
    (0x09 <= n && n <= 0x0d) || n == 0x20 || n == 0x85 || n == 0xa0 || n == 0x1680 || (0x2000 <= n
        && n <= 0x200a) || n == 0x2028 || n == 0x2029 || n == 0x202f || n == 0x205f || n == 0x3000
}

/// The characters of `s`, in order.
pub fn chars_of(s: &str) -> (chars: Vec<char>)
    ensures
        chars@ == s@,
{
    let mut chars: Vec<char> = Vec::new();
    for c in it: s.chars()
        invariant
            chars@ == it.seq().take(it.index()),
            it.seq() == s@,
    {
        chars.push(c);
    }
    chars
}

/// Whether `pattern` stands in `text` at position `at`.
pub open spec fn occurs_at(text: Seq<char>, pattern: Seq<char>, at: int) -> bool {
    &&& 0 <= at
    &&& at + pattern.len() <= text.len()
    &&& text.subrange(at, at + pattern.len()) == pattern
}

/// Whether `pattern` stands somewhere in `text`.
pub open spec fn occurs(text: Seq<char>, pattern: Seq<char>) -> bool {
    exists|at: int| occurs_at(text, pattern, at)
}

/// Whether `at` is the leftmost position at which `pattern` stands in `text`.
pub open spec fn is_first_occurrence(text: Seq<char>, pattern: Seq<char>, at: int) -> bool {
    &&& occurs_at(text, pattern, at)
    &&& forall|earlier: int| earlier < at ==> !occurs_at(text, pattern, earlier)
}

/// The leftmost position at which `pattern` stands in `text`, where it
/// occurs at all.
pub open spec fn first_occurrence(text: Seq<char>, pattern: Seq<char>) -> int {
    choose|at: int| is_first_occurrence(text, pattern, at)
}

/// The part of `text` that comes before the first occurrence of `pattern`:
/// all of it where `pattern` does not occur.
pub open spec fn before_first(text: Seq<char>, pattern: Seq<char>) -> Seq<char> {
    if occurs(text, pattern) {
        text.take(first_occurrence(text, pattern))
    } else {
        text
    }
}

/// A leftmost position is the only one, and `first_occurrence` names it.
pub proof fn lemma_first_occurrence(text: Seq<char>, pattern: Seq<char>, at: int)
    requires
        is_first_occurrence(text, pattern, at),
    ensures
        occurs(text, pattern),
        first_occurrence(text, pattern) == at,
        before_first(text, pattern) == text.take(at),
{
}

/// Whether `pattern` stands in `text` at position `at`.
pub fn matches_at(text: &[char], pattern: &[char], at: usize) -> (hit: bool)
    ensures
        hit == occurs_at(text@, pattern@, at as int),
{
    if pattern.len() > text.len() || at > text.len() - pattern.len() {
        return false;
    }
    let ghost window = text@.subrange(at as int, at + pattern@.len());
    let mut k: usize = 0;
    while k < pattern.len()
        invariant
            k <= pattern.len(),
            at + pattern.len() <= text.len(),
            window == text@.subrange(at as int, at + pattern@.len()),
            forall|j: int| 0 <= j < k ==> window[j] == pattern@[j],
        decreases pattern.len() - k,
    {
        if text[at + k] != pattern[k] {
            return false;
        }
        k += 1;
    }
    assert(window =~= pattern@);
    true
}

/// The leftmost position at which `pattern` stands in `text`.
pub fn find(text: &[char], pattern: &[char]) -> (found: Option<usize>)
    ensures
        found matches Some(at) ==> is_first_occurrence(text@, pattern@, at as int),
        found is None ==> !occurs(text@, pattern@),
{
    if pattern.len() > text.len() {
        return None;
    }
    let last: usize = text.len() - pattern.len();
    let mut at: usize = 0;
    while at < last
        invariant
            last + pattern.len() == text.len(),
            at <= last,
            forall|earlier: int| earlier < at ==> !occurs_at(text@, pattern@, earlier),
        decreases last - at,
    {
        if matches_at(text, pattern, at) {
            return Some(at);
        }
        at += 1;
    }
    if matches_at(text, pattern, at) {
        Some(at)
    } else {
        None
    }
}

/// Whether `a` and `b` are the same text.
pub fn same_text(a: &str, b: &str) -> (same: bool)
    ensures
        same == (a@ == b@),
{
    let left = chars_of(a);
    let right = chars_of(b);
    let same = left.len() == right.len() && matches_at(left.as_slice(), right.as_slice(), 0);
    proof {
        if a@ == b@ {
            assert(a@.subrange(0, b@.len() as int) =~= b@);
        }
        if same {
            assert(a@.subrange(0, b@.len() as int) =~= a@);
        }
    }
    same
}

/// Whether `pattern` stands somewhere in `text`.
pub fn contains(text: &[char], pattern: &[char]) -> (hit: bool)
    ensures
        hit == occurs(text@, pattern@),
{
    find(text, pattern).is_some()
}

/// `s` without the white space at its end.
pub open spec fn trim_end(s: Seq<char>) -> Seq<char>
    decreases s.len(),
{
    if s.len() > 0 && is_whitespace(s.last()) {
        trim_end(s.drop_last())
    } else {
        s
    }
}

/// The longest run of characters at the end of `s` that holds no white space.
pub open spec fn last_word(s: Seq<char>) -> Seq<char>
    decreases s.len(),
{
    if s.len() > 0 && !is_whitespace(s.last()) {
        last_word(s.drop_last()).push(s.last())
    } else {
        Seq::empty()
    }
}

/// The last of the words that white space separates in `s`, if there is one.
pub open spec fn last_token(s: Seq<char>) -> Option<Seq<char>> {
    let word = last_word(trim_end(s));
    if word.len() > 0 {
        Some(word)
    } else {
        None
    }
}

/// Where the white space at the end of `s` begins, `trim_end` cuts.
pub proof fn lemma_trim_end(s: Seq<char>, end: int)
    requires
        0 <= end <= s.len(),
        forall|k: int| end <= k < s.len() ==> is_whitespace(s[k]),
        end == 0 || !is_whitespace(s[end - 1]),
    ensures
        trim_end(s) == s.take(end),
    decreases s.len() - end,
{
    if end < s.len() {
        lemma_trim_end(s.drop_last(), end);
    }
}

/// Where the run without white space at the end of `s` begins, `last_word`
/// begins.
pub proof fn lemma_last_word(s: Seq<char>, start: int)
    requires
        0 <= start <= s.len(),
        forall|k: int| start <= k < s.len() ==> !is_whitespace(s[k]),
        start == 0 || is_whitespace(s[start - 1]),
    ensures
        last_word(s) == s.skip(start),
    decreases s.len() - start,
{
    if start < s.len() {
        lemma_last_word(s.drop_last(), start);
    }
}

/// The last token is the word that white space, or the start of the text,
/// comes before, and that only white space follows.
pub proof fn lemma_last_token(s: Seq<char>, start: int, end: int)
    requires
        0 <= start < end <= s.len(),
        forall|k: int| start <= k < end ==> !is_whitespace(s[k]),
        forall|k: int| end <= k < s.len() ==> is_whitespace(s[k]),
        start == 0 || is_whitespace(s[start - 1]),
    ensures
        last_token(s) == Some(s.subrange(start, end)),
{
    lemma_trim_end(s, end);
    lemma_last_word(s.take(end), start);
}

/// A text has no last token if and only if it is white space throughout.
pub proof fn lemma_no_token(s: Seq<char>)
    ensures
        last_token(s) is None <==> forall|k: int| 0 <= k < s.len() ==> is_whitespace(s[k]),
    decreases s.len(),
{
    if s.len() > 0 && is_whitespace(s.last()) {
        let shorter = s.drop_last();
        lemma_no_token(shorter);
        if forall|k: int| 0 <= k < shorter.len() ==> is_whitespace(shorter[k]) {
            assert forall|k: int| 0 <= k < s.len() implies is_whitespace(s[k]) by {
                if k < shorter.len() {
                    assert(shorter[k] == s[k]);
                }
            }
        }
    }
}

/// Where the last word of `text` starts and ends.
pub fn last_token_span(text: &[char]) -> (span: Option<(usize, usize)>)
    ensures
        span matches Some((start, end)) ==> ({
            &&& start < end <= text@.len()
            &&& text@.take(end as int) == trim_end(text@)
            &&& text@.subrange(start as int, end as int) == last_word(trim_end(text@))
            &&& last_token(text@) == Some(text@.subrange(start as int, end as int))
        }),
        span is None ==> last_token(text@) is None,
{
    let mut end: usize = text.len();
    assert(text@.take(end as int) =~= text@);
    while end > 0 && is_space(text[end - 1])
        invariant
            end <= text.len(),
            trim_end(text@) == trim_end(text@.take(end as int)),
        decreases end,
    {
        assert(text@.take(end as int).drop_last() =~= text@.take(end - 1));
        end -= 1;
    }
    let ghost trimmed = text@.take(end as int);
    let mut start: usize = end;
    while start > 0 && !is_space(text[start - 1])
        invariant
            start <= end <= text.len(),
            trimmed == text@.take(end as int),
            last_word(trimmed) == last_word(text@.take(start as int)) + text@.subrange(
                start as int,
                end as int,
            ),
        decreases start,
    {
        let ghost head = text@.take(start as int);
        assert(head.drop_last() =~= text@.take(start - 1));
        assert(last_word(head.drop_last()).push(head.last()) + text@.subrange(
            start as int,
            end as int,
        ) =~= last_word(head.drop_last()) + text@.subrange(start - 1, end as int));
        start -= 1;
    }
    if start < end {
        Some((start, end))
    } else {
        None
    }
}

} // verus!
