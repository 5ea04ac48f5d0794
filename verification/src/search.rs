//! Finding things in texts.

use vstd::prelude::*;
use vstd::string::*;

use crate::text;

verus! {

/// Whether `pattern` stands at `at`, before `end`.
pub open spec fn stands(text: Seq<char>, pattern: Seq<char>, at: int, end: int) -> bool {
    &&& at + pattern.len() <= end
    &&& text.subrange(at, at + pattern.len()) == pattern
}

/// The first place from `at` on where `pattern` stands.
pub open spec fn found(text: Seq<char>, pattern: Seq<char>, at: int, end: int) -> Option<int>
    decreases end - at,
{
    if at + pattern.len() > end || at >= end {
        None
    } else if stands(text, pattern, at, end) {
        Some(at)
    } else {
        found(text, pattern, at + 1, end)
    }
}

fn stands_at(text: &Vec<char>, pattern: &Vec<char>, at: usize, end: usize) -> (r: bool)
    requires
        at <= end <= text@.len(),
    ensures
        r == stands(text@, pattern@, at as int, end as int),
{
    if pattern.len() > end - at {
        return false;
    }
    let mut i: usize = 0;
    while i < pattern.len()
        invariant
            i <= pattern@.len(),
            at + pattern@.len() <= end <= text@.len(),
            forall|j: int| 0 <= j < i ==> text@[at + j] == pattern@[j],
        decreases pattern@.len() - i,
    {
        if text[at + i] != pattern[i] {
            assert(text@.subrange(at as int, at + pattern@.len())[i as int] != pattern@[i as int]);
            return false;
        }
        i += 1;
    }
    assert(text@.subrange(at as int, at + pattern@.len()) =~= pattern@);
    true
}

/// The first place from `from` on where `pattern` stands.
pub fn find(text: &Vec<char>, pattern: &Vec<char>, from: usize, end: usize) -> (r: Option<usize>)
    requires
        from <= end <= text@.len(),
    ensures
        match r {
            Some(i) => {
                &&& found(text@, pattern@, from as int, end as int) == Some(i as int)
                &&& from <= i < end
                &&& stands(text@, pattern@, i as int, end as int)
            },
            None => found(text@, pattern@, from as int, end as int) is None,
        },
{
    let mut at: usize = from;
    while at < end && pattern.len() <= end - at
        invariant
            from <= at <= end,
            end <= text@.len(),
            found(text@, pattern@, from as int, end as int) == found(
                text@,
                pattern@,
                at as int,
                end as int,
            ),
        decreases end - at,
    {
        if stands_at(text, pattern, at, end) {
            return Some(at);
        }
        at += 1;
    }
    None
}

/// The first place from `at` on that holds `c`.
pub open spec fn found_char(text: Seq<char>, c: char, at: int, end: int) -> Option<int>
    decreases end - at,
{
    if at >= end {
        None
    } else if text[at] == c {
        Some(at)
    } else {
        found_char(text, c, at + 1, end)
    }
}

/// The first place from `from` on that holds `c`.
pub fn find_char(text: &Vec<char>, c: char, from: usize, end: usize) -> (r: Option<usize>)
    requires
        from <= end <= text@.len(),
    ensures
        match r {
            Some(i) => {
                &&& found_char(text@, c, from as int, end as int) == Some(i as int)
                &&& from <= i < end
            },
            None => found_char(text@, c, from as int, end as int) is None,
        },
{
    let mut at: usize = from;
    while at < end
        invariant
            from <= at <= end,
            end <= text@.len(),
            found_char(text@, c, from as int, end as int) == found_char(
                text@,
                c,
                at as int,
                end as int,
            ),
        decreases end - at,
    {
        if text[at] == c {
            return Some(at);
        }
        at += 1;
    }
    None
}

/// A place found lies where it was looked for.
pub proof fn lemma_found(text: Seq<char>, pattern: Seq<char>, at: int, end: int)
    ensures
        found(text, pattern, at, end) matches Some(i) ==> at <= i && i + pattern.len() <= end && i
            < end,
    decreases end - at,
{
    if at + pattern.len() <= end && at < end && !stands(text, pattern, at, end) {
        lemma_found(text, pattern, at + 1, end);
    }
}

/// A search finds the first place where the pattern stands, and finds one wherever it
/// stands at all: a text holds a pattern exactly where it is some text, the pattern, and
/// some other text.
pub proof fn law_a_pattern_is_found_where_it_first_stands(text: Seq<char>, pattern: Seq<char>)
    requires
        pattern.len() > 0,
    ensures
        found(text, pattern, 0, text.len() as int) is Some <==> exists|
            before: Seq<char>,
            after: Seq<char>,
        | text == #[trigger] (before + pattern + after),
        found(text, pattern, 0, text.len() as int) matches Some(i) ==> {
            &&& text == text.take(i) + pattern + text.skip(i + pattern.len())
            &&& forall|before: Seq<char>, after: Seq<char>|
                text == #[trigger] (before + pattern + after) ==> i <= before.len()
        },
{
    let place = found(text, pattern, 0, text.len() as int);
    lemma_found_first(text, pattern, 0, text.len() as int);
    if let Some(i) = place {
        assert(text.subrange(i, i + pattern.len()) == pattern);
        assert(text =~= text.take(i) + pattern + text.skip(i + pattern.len()));
    }
    assert forall|before: Seq<char>, after: Seq<char>|
        text == #[trigger] (before + pattern + after) implies place is Some && place->0
        <= before.len() by {
        let j = before.len() as int;
        assert(text.subrange(j, j + pattern.len()) =~= pattern);
        assert(stands(text, pattern, j, text.len() as int));
    }
}

/// A place found is the first from there on.
pub proof fn lemma_found_first(text: Seq<char>, pattern: Seq<char>, at: int, end: int)
    requires
        0 <= at,
        end == text.len(),
        pattern.len() > 0,
    ensures
        found(text, pattern, at, end) matches Some(i) ==> {
            &&& at <= i
            &&& stands(text, pattern, i, end)
        },
        forall|j: int|
            at <= j && #[trigger] stands(text, pattern, j, end) ==> (found(
                text,
                pattern,
                at,
                end,
            ) matches Some(i) && i <= j),
    decreases end - at,
{
    if at + pattern.len() <= end && at < end && !stands(text, pattern, at, end) {
        lemma_found_first(text, pattern, at + 1, end);
    }
}

/// A place found lies where it was looked for.
pub proof fn lemma_found_char(text: Seq<char>, c: char, at: int, end: int)
    ensures
        found_char(text, c, at, end) matches Some(i) ==> at <= i < end,
    decreases end - at,
{
    if at < end && text[at] != c {
        lemma_found_char(text, c, at + 1, end);
    }
}

/// Whether `c` is white space.
pub open spec fn white(c: char) -> bool {
    ||| '\u{9}' <= c <= '\u{d}'
    ||| c == ' '
    ||| c == '\u{85}'
    ||| c == '\u{a0}'
    ||| c == '\u{1680}'
    ||| '\u{2000}' <= c <= '\u{200a}'
    ||| c == '\u{2028}'
    ||| c == '\u{2029}'
    ||| c == '\u{202f}'
    ||| c == '\u{205f}'
    ||| c == '\u{3000}'
}

/// Whether `c` is white space.
pub fn is_white(c: char) -> (r: bool)
    ensures
        r == white(c),
{
    ('\u{9}' <= c && c <= '\u{d}') || c == ' ' || c == '\u{85}' || c == '\u{a0}' || c
        == '\u{1680}' || ('\u{2000}' <= c && c <= '\u{200a}') || c == '\u{2028}' || c
        == '\u{2029}' || c == '\u{202f}' || c == '\u{205f}' || c == '\u{3000}'
}

/// A place found holds the character.
pub proof fn lemma_found_char_holds(text: Seq<char>, c: char, at: int, end: int)
    ensures
        found_char(text, c, at, end) matches Some(i) ==> at <= i < end && text[i] == c,
    decreases end - at,
{
    if at < end && text[at] != c {
        lemma_found_char_holds(text, c, at + 1, end);
    }
}

/// The first place that holds the character is found.
pub proof fn lemma_found_char_first(text: Seq<char>, c: char, at: int, k: int, end: int)
    requires
        at <= k < end,
        text[k] == c,
        forall|j: int| at <= j < k ==> #[trigger] text[j] != c,
    ensures
        found_char(text, c, at, end) == Some(k),
    decreases k - at,
{
    if at < k {
        lemma_found_char_first(text, c, at + 1, k, end);
    }
}

/// Looking from `at` on is looking at what is left from there.
pub proof fn lemma_found_char_shift(text: Seq<char>, c: char, at: int, end: int)
    requires
        0 <= at <= end == text.len(),
    ensures
        found_char(text.skip(at), c, 0, end - at) == match found_char(text, c, at, end) {
            Some(i) => Some(i - at),
            None => None::<int>,
        },
{
    lemma_found_char_offset(text, c, at, at, end);
}

proof fn lemma_found_char_offset(text: Seq<char>, c: char, base: int, at: int, end: int)
    requires
        0 <= base <= at <= end == text.len(),
    ensures
        found_char(text.skip(base), c, at - base, end - base) == match found_char(
            text,
            c,
            at,
            end,
        ) {
            Some(i) => Some(i - base),
            None => None::<int>,
        },
    decreases end - at,
{
    if at < end && text[at] != c {
        lemma_found_char_offset(text, c, base, at + 1, end);
    }
}

/// The first place from `at` on that is no white space.
pub open spec fn past_white(h: Seq<char>, at: int) -> int
    decreases h.len() - at,
{
    if at < h.len() && white(h[at]) {
        past_white(h, at + 1)
    } else {
        at
    }
}

/// The first place from `from` on that is no white space.
pub fn skip_white(h: &Vec<char>, from: usize) -> (r: usize)
    requires
        from <= h@.len(),
    ensures
        r == past_white(h@, from as int),
        from <= r <= h@.len(),
{
    let mut at: usize = from;
    while at < h.len() && is_white(h[at])
        invariant
            from <= at <= h@.len(),
            past_white(h@, from as int) == past_white(h@, at as int),
        decreases h@.len() - at,
    {
        at += 1;
    }
    at
}

/// The last place before `end` behind which there is only white space.
pub open spec fn before_white(t: Seq<char>, start: int, end: int) -> int
    decreases end - start,
{
    if start < end && white(t[end - 1]) {
        before_white(t, start, end - 1)
    } else {
        end
    }
}

/// A text without the white space around it.
pub open spec fn trimmed(t: Seq<char>) -> Seq<char> {
    let start = past_white(t, 0);
    t.subrange(start, before_white(t, start, t.len() as int))
}

/// A text without the white space around it.
pub fn trim(t: &str) -> (r: &str)
    ensures
        r@ == trimmed(t@),
{
    let chars: Vec<char> = text::chars_of(t);
    let start: usize = skip_white(&chars, 0);
    let mut end: usize = chars.len();
    while start < end && is_white(chars[end - 1])
        invariant
            start <= end <= chars@.len(),
            before_white(chars@, start as int, chars@.len() as int) == before_white(
                chars@,
                start as int,
                end as int,
            ),
        decreases end,
    {
        end -= 1;
    }
    t.substring_char(start, end)
}

} // verus!
