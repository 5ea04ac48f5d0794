//! What taking a pattern out of a text, and counting it, comes to.

use vstd::prelude::*;

use crate::gpu::probe;
use crate::search;

verus! {

/// What is taken out is as long as the pattern, as often as it is counted.
pub proof fn law_removal_shortens_by_what_is_counted(text: Seq<char>, pattern: Seq<char>, at: int)
    requires
        pattern.len() > 0,
        0 <= at <= text.len(),
    ensures
        probe::removed(text, pattern, at).len() + probe::occurrences(text, pattern, at)
            * pattern.len() == text.len() - at,
    decreases text.len() - at,
{
    search::lemma_found(text, pattern, at, text.len() as int);
    if let Some(i) = search::found(text, pattern, at, text.len() as int) {
        let rest = probe::occurrences(text, pattern, i + pattern.len());
        law_removal_shortens_by_what_is_counted(text, pattern, i + pattern.len());
        assert((1 + rest) * pattern.len() == pattern.len() + rest * pattern.len())
            by (nonlinear_arith);
    } else {
        assert(0 * pattern.len() == 0) by (nonlinear_arith);
    }
}

/// A text from `from` on without the `len` characters at each of `starts`.
pub open spec fn cut(text: Seq<char>, starts: Seq<int>, from: int, len: nat) -> Seq<char>
    decreases starts.len(),
{
    if starts.len() == 0 {
        text.subrange(from, text.len() as int)
    } else {
        text.subrange(from, starts[0]) + cut(text, starts.drop_first(), starts[0] + len, len)
    }
}

/// Whether a place reaches over `x`.
pub open spec fn is_reached(starts: Seq<int>, len: nat, x: int) -> bool {
    exists|i: int| 0 <= i < starts.len() && #[trigger] starts[i] <= x && x < starts[i] + len
}

/// Whether a pattern stands at every one of some places, none of which overlaps the next.
pub open spec fn are_places(
    text: Seq<char>,
    pattern: Seq<char>,
    starts: Seq<int>,
    from: int,
) -> bool {
    forall|i: int|
        0 <= i < starts.len() ==> {
            &&& search::stands(text, pattern, #[trigger] starts[i], text.len() as int)
            &&& i == 0 ==> from <= starts[i]
            &&& i > 0 ==> starts[i - 1] + pattern.len() <= starts[i]
        }
}

/// A pattern is taken out, and counted, at places that do not overlap, one behind the
/// other: it stands at each, wherever it stands it reaches into one of them, and all that
/// lies outside them is kept, in order.
pub proof fn law_removal_keeps_what_lies_between(
    text: Seq<char>,
    pattern: Seq<char>,
    from: int,
) -> (starts: Seq<int>)
    requires
        pattern.len() > 0,
        0 <= from <= text.len(),
    ensures
        starts.len() == probe::occurrences(text, pattern, from),
        are_places(text, pattern, starts, from),
        forall|x: int|
            from <= x && #[trigger] search::stands(text, pattern, x, text.len() as int)
                ==> is_reached(starts, pattern.len(), x),
        probe::removed(text, pattern, from) == cut(text, starts, from, pattern.len()),
    decreases text.len() - from,
{
    let len = pattern.len();
    let to = text.len() as int;
    search::lemma_found(text, pattern, from, to);
    search::lemma_found_first(text, pattern, from, to);
    if let Some(at) = search::found(text, pattern, from, to) {
        let more = law_removal_keeps_what_lies_between(text, pattern, at + len);
        let starts = seq![at] + more;
        assert(starts.drop_first() =~= more);
        assert forall|i: int| 0 <= i < starts.len() implies {
            &&& search::stands(text, pattern, #[trigger] starts[i], to)
            &&& i == 0 ==> from <= starts[i]
            &&& i > 0 ==> starts[i - 1] + len <= starts[i]
        } by {
            if i > 0 {
                assert(starts[i] == more[i - 1]);
            }
        }
        assert forall|x: int|
            from <= x && #[trigger] search::stands(text, pattern, x, to) implies is_reached(
            starts,
            len,
            x,
        ) by {
            if x < at + len {
                assert(starts[0] <= x);
            } else {
                let i = choose|i: int|
                    0 <= i < more.len() && #[trigger] more[i] <= x && x < more[i] + len;
                assert(starts[i + 1] == more[i]);
            }
        }
        starts
    } else {
        Seq::empty()
    }
}

} // verus!
