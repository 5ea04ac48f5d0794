//! What a user asks for, and which adapter answers.

use vstd::prelude::*;
use vstd::string::*;

use crate::error::ErrorView;
use crate::gpu::device;
use crate::gpu::device::{Adapter, Backend, DeviceSelector, DeviceType, SelectorView};
use crate::search;
use crate::text;

verus! {

/// Whether two characters are one letter of ASCII in two cases, or the same.
pub open spec fn same_letter(a: char, b: char) -> bool {
    ||| a == b
    ||| 65 <= a as int <= 90 && b as int == a as int + 32
    ||| 65 <= b as int <= 90 && a as int == b as int + 32
}

/// Whether two texts differ in their letters' cases at most.
pub open spec fn same_letters(a: Seq<char>, b: Seq<char>) -> bool {
    a.len() == b.len() && forall|i: int| 0 <= i < a.len() ==> same_letter(#[trigger] a[i], b[i])
}

/// Whether a text is a part of another, whatever the letters' cases.
pub open spec fn is_part(part: Seq<char>, whole: Seq<char>) -> bool {
    exists|before: Seq<char>, middle: Seq<char>, after: Seq<char>|
        whole == #[trigger] (before + middle + after) && same_letters(middle, part)
}

/// Whether an adapter is what a selector speaks of.
pub open spec fn meant(selector: SelectorView, a: Adapter) -> bool {
    match selector {
        SelectorView::Auto => true,
        SelectorView::Runtime { api, .. } => a.backend == api,
        SelectorView::Name(part) => is_part(part, a.name@),
    }
}

proof fn lemma_letters(a: char, b: char)
    ensures
        (device::lower(a) == device::lower(b)) == same_letter(a, b),
{
}

proof fn lemma_lowered(a: Seq<char>, b: Seq<char>)
    ensures
        (device::lowered(a) == device::lowered(b)) == same_letters(a, b),
{
    if device::lowered(a) == device::lowered(b) {
        assert(device::lowered(a).len() == device::lowered(b).len());
        assert forall|i: int| 0 <= i < a.len() implies same_letter(#[trigger] a[i], b[i]) by {
            assert(device::lowered(a)[i] == device::lower(a[i]));
            assert(device::lowered(b)[i] == device::lower(b[i]));
            lemma_letters(a[i], b[i]);
        }
    }
    if same_letters(a, b) {
        assert forall|i: int| 0 <= i < a.len() implies device::lower(a[i]) == device::lower(
            b[i],
        ) by {
            lemma_letters(a[i], b[i]);
        }
        assert(device::lowered(a) =~= device::lowered(b));
    }
}

/// A selector accepts the adapters it speaks of and no others; a name speaks of every
/// adapter that has it anywhere in its own name, in letters of either case.
pub proof fn law_a_selector_accepts_what_it_means(selector: SelectorView, a: Adapter)
    ensures
        DeviceSelector::accepts_spec(selector, a) == meant(selector, a),
{
    if let SelectorView::Name(part) = selector {
        let name = a.name@;
        let low = device::lowered(name);
        let wanted = device::lowered(part);
        if part.len() == 0 {
            assert(name =~= Seq::<char>::empty() + part + name);
        } else {
            search::law_a_pattern_is_found_where_it_first_stands(low, wanted);
            let place = search::found(low, wanted, 0, name.len() as int);
            if let Some(i) = place {
                search::lemma_found(low, wanted, 0, name.len() as int);
                let middle = name.subrange(i, i + part.len());
                assert(name =~= name.take(i) + middle + name.skip(i + part.len()));
                search::lemma_found_first(low, wanted, 0, name.len() as int);
                assert(device::lowered(middle) =~= low.subrange(i, i + part.len()));
                lemma_lowered(middle, part);
            }
            if is_part(part, name) {
                let (before, middle, after) = choose|
                    before: Seq<char>,
                    middle: Seq<char>,
                    after: Seq<char>,
                |
                    name == #[trigger] (before + middle + after) && same_letters(middle, part);
                lemma_lowered(middle, part);
                assert(low =~= device::lowered(before) + wanted + device::lowered(after)) by {
                    assert(low =~= device::lowered(before) + device::lowered(middle)
                        + device::lowered(after));
                }
            }
        }
    }
}

/// Whether an adapter is better than another: a discrete GPU, then an integrated one,
/// then a virtual one, then the rest; among those alike, Vulkan, then Metal, then
/// Direct3D 12, then the rest.
pub open spec fn better(a: Adapter, b: Adapter) -> bool {
    ||| kind_at(a) < kind_at(b)
    ||| kind_at(a) == kind_at(b) && way_at(a) < way_at(b)
}

pub open spec fn kind_at(a: Adapter) -> int {
    if a.device_type == DeviceType::DiscreteGpu {
        0
    } else if a.device_type == DeviceType::IntegratedGpu {
        1
    } else if a.device_type == DeviceType::VirtualGpu {
        2
    } else {
        3
    }
}

pub open spec fn way_at(a: Adapter) -> int {
    if a.backend == Backend::Vulkan {
        0
    } else if a.backend == Backend::Metal {
        1
    } else if a.backend == Backend::Dx12 {
        2
    } else {
        3
    }
}

/// Whether adapter `x` comes before adapter `y`: it is better, or as good and listed
/// before.
pub open spec fn ahead(adapters: Seq<Adapter>, x: usize, y: usize) -> bool {
    ||| better(adapters[x as int], adapters[y as int])
    ||| !better(adapters[y as int], adapters[x as int]) && x < y
}

/// Whether a list is every adapter a selector speaks of, once, the best first.
pub open spec fn is_the_choice(
    adapters: Seq<Adapter>,
    selector: SelectorView,
    list: Seq<usize>,
) -> bool {
    &&& forall|i: usize|
        #[trigger] list.contains(i) <==> i < adapters.len() && meant(selector, adapters[i as int])
    &&& forall|p: int, q: int|
        0 <= p < q < list.len() ==> ahead(adapters, #[trigger] list[p], #[trigger] list[q])
}

spec fn sorted(adapters: Seq<Adapter>, list: Seq<usize>) -> bool {
    forall|p: int, q: int|
        0 <= p < q < list.len() ==> ahead(adapters, #[trigger] list[p], #[trigger] list[q])
}

proof fn lemma_placed(adapters: Seq<Adapter>, order: Seq<usize>, i: usize)
    requires
        sorted(adapters, order),
        forall|p: int| 0 <= p < order.len() ==> #[trigger] order[p] < i,
    ensures
        sorted(adapters, device::placed(adapters, order, i)),
        forall|x: usize|
            #[trigger] device::placed(adapters, order, i).contains(x) <==> order.contains(x) || x
                == i,
        device::placed(adapters, order, i).len() == order.len() + 1,
    decreases order.len(),
{
    let r = device::placed(adapters, order, i);
    if order.len() == 0 || !device::behind(adapters[order.last() as int], adapters[i as int]) {
        assert forall|p: int, q: int| 0 <= p < q < r.len() implies ahead(
            adapters,
            #[trigger] r[p],
            #[trigger] r[q],
        ) by {
            if q == order.len() {
                assert(r[p] == order[p]);
                if p < order.len() - 1 {
                    assert(ahead(adapters, order[p], order[order.len() - 1]));
                }
            } else {
                assert(r[p] == order[p] && r[q] == order[q]);
            }
        }
        assert forall|x: usize| #[trigger] r.contains(x) <==> order.contains(x) || x == i by {
            if order.contains(x) {
                let k = choose|k: int| 0 <= k < order.len() && order[k] == x;
                assert(r[k] == x);
            }
            if x == i {
                assert(r[order.len() as int] == x);
            }
            if r.contains(x) && x != i {
                let k = choose|k: int| 0 <= k < r.len() && r[k] == x;
                assert(order[k] == x);
            }
        }
    } else {
        let front = order.drop_last();
        assert forall|p: int, q: int| 0 <= p < q < front.len() implies ahead(
            adapters,
            #[trigger] front[p],
            #[trigger] front[q],
        ) by {
            assert(front[p] == order[p] && front[q] == order[q]);
        }
        lemma_placed(adapters, front, i);
        let before = device::placed(adapters, front, i);
        assert(r == before.push(order.last()));
        assert forall|x: usize| #[trigger] r.contains(x) <==> order.contains(x) || x == i by {
            if order.contains(x) {
                let k = choose|k: int| 0 <= k < order.len() && order[k] == x;
                if k < front.len() {
                    assert(front[k] == x);
                    assert(before.contains(x));
                    let j = choose|j: int| 0 <= j < before.len() && before[j] == x;
                    assert(r[j] == x);
                } else {
                    assert(r[before.len() as int] == x);
                }
            }
            if x == i {
                assert(before.contains(x));
                let j = choose|j: int| 0 <= j < before.len() && before[j] == x;
                assert(r[j] == x);
            }
            if r.contains(x) {
                let j = choose|j: int| 0 <= j < r.len() && r[j] == x;
                if j < before.len() {
                    assert(before[j] == x);
                    assert(before.contains(x));
                    if front.contains(x) {
                        let k = choose|k: int| 0 <= k < front.len() && front[k] == x;
                        assert(order[k] == x);
                    }
                } else {
                    assert(order[order.len() - 1] == x);
                }
            }
        }
        assert forall|p: int, q: int| 0 <= p < q < r.len() implies ahead(
            adapters,
            #[trigger] r[p],
            #[trigger] r[q],
        ) by {
            if q < before.len() {
                assert(r[p] == before[p] && r[q] == before[q]);
            } else {
                assert(r[p] == before[p] && before.contains(r[p]));
                if r[p] != i {
                    assert(front.contains(r[p]));
                    let k = choose|k: int| 0 <= k < front.len() && front[k] == r[p];
                    assert(order[k] == r[p]);
                    assert(ahead(adapters, order[k], order[order.len() - 1]));
                }
            }
        }
    }
}

proof fn lemma_choice(adapters: Seq<Adapter>, selector: SelectorView, n: nat)
    requires
        n <= adapters.len() <= usize::MAX,
    ensures
        ({
            let list = device::ranked(
                adapters,
                device::accepted(adapters, selector, device::numbered(n)),
            );
            &&& sorted(adapters, list)
            &&& forall|x: usize|
                #[trigger] list.contains(x) <==> x < n && meant(selector, adapters[x as int])
        }),
    decreases n,
{
    let all = device::numbered(n);
    if n > 0 {
        let m = (n - 1) as nat;
        lemma_choice(adapters, selector, m);
        assert(all.drop_last() =~= device::numbered(m));
        let i = all.last();
        assert(i == m);
        let hits = device::accepted(adapters, selector, device::numbered(m));
        law_a_selector_accepts_what_it_means(selector, adapters[m as int]);
        let before = device::ranked(adapters, hits);
        if meant(selector, adapters[m as int]) {
            assert(hits.push(i).drop_last() =~= hits);
            assert forall|p: int| 0 <= p < before.len() implies #[trigger] before[p] < i by {
                assert(before.contains(before[p]));
            }
            lemma_placed(adapters, before, i);
        }
    }
}

/// The adapter picked is the first of those the selector speaks of, the best first and
/// those as good in the order they were listed; of a runtime and an index it is the one
/// at that index. Where there is none an error says so.
pub proof fn law_the_best_that_is_meant_is_picked(adapters: Seq<Adapter>, selector: SelectorView)
    requires
        adapters.len() <= usize::MAX,
    ensures
        exists|list: Seq<usize>|
            {
                &&& #[trigger] is_the_choice(adapters, selector, list)
                &&& match device::picked(adapters, selector) {
                    Ok(i) => match selector {
                        SelectorView::Runtime { index, .. } => index < list.len() && i
                            == list[index as int],
                        _ => list.len() > 0 && i == list[0],
                    },
                    Err(_) => match selector {
                        SelectorView::Runtime { index, .. } => index >= list.len(),
                        _ => list.len() == 0,
                    },
                }
            },
{
    lemma_choice(adapters, selector, adapters.len());
    assert(is_the_choice(adapters, selector, device::candidates(adapters, selector)));
}

// ---------------------------------------------------------------------- selectors

pub open spec fn blank(t: Seq<char>) -> bool {
    forall|i: int| 0 <= i < t.len() ==> search::white(#[trigger] t[i])
}

proof fn lemma_past_white(t: Seq<char>, at: int, stop: int)
    requires
        0 <= at <= stop <= t.len(),
        forall|i: int| at <= i < stop ==> search::white(#[trigger] t[i]),
        stop < t.len() ==> !search::white(t[stop]),
    ensures
        search::past_white(t, at) == stop,
    decreases stop - at,
{
    if at < stop {
        lemma_past_white(t, at + 1, stop);
    }
}

proof fn lemma_before_white(t: Seq<char>, start: int, end: int, stop: int)
    requires
        0 <= start <= stop <= end <= t.len(),
        forall|i: int| stop <= i < end ==> search::white(#[trigger] t[i]),
        start < stop ==> !search::white(t[stop - 1]),
    ensures
        search::before_white(t, start, end) == stop,
    decreases end - stop,
{
    if stop < end {
        lemma_before_white(t, start, end - 1, stop);
    }
}

/// A text reads as the text without the white space around it.
proof fn lemma_trimmed(left: Seq<char>, t: Seq<char>, right: Seq<char>)
    requires
        blank(left),
        blank(right),
        t.len() > 0 ==> !search::white(t[0]) && !search::white(t.last()),
    ensures
        search::trimmed(left + t + right) == t,
{
    let all = left + t + right;
    let start = left.len() as int;
    let stop = start + t.len();
    if t.len() == 0 {
        assert forall|i: int| 0 <= i < all.len() implies search::white(#[trigger] all[i]) by {
            if i < start {
                assert(all[i] == left[i]);
            } else {
                assert(all[i] == right[i - start]);
            }
        }
        lemma_past_white(all, 0, all.len() as int);
        lemma_before_white(all, all.len() as int, all.len() as int, all.len() as int);
    } else {
        assert forall|i: int| 0 <= i < start implies search::white(#[trigger] all[i]) by {
            assert(all[i] == left[i]);
        }
        assert forall|i: int| stop <= i < all.len() implies search::white(#[trigger] all[i]) by {
            assert(all[i] == right[i - stop]);
        }
        assert(all[start] == t[0]);
        assert(all[stop - 1] == t.last());
        lemma_past_white(all, 0, start);
        lemma_before_white(all, start, all.len() as int, stop);
    }
    assert(search::trimmed(all) =~= t);
}

/// The runtime of a name, in letters of either case.
pub open spec fn names(t: Seq<char>, api: Backend) -> bool {
    ||| api == Backend::Vulkan && same_letters(t, "vulkan"@)
    ||| api == Backend::Metal && same_letters(t, "metal"@)
    ||| api == Backend::Dx12 && same_letters(t, "dx12"@)
    ||| api == Backend::Gl && same_letters(t, "gl"@)
}

proof fn lemma_low(t: Seq<char>, word: Seq<char>)
    requires
        forall|i: int| 0 <= i < word.len() ==> !(65 <= #[trigger] word[i] as int <= 90),
    ensures
        (device::lowered(t) == word) == same_letters(t, word),
{
    assert(device::lowered(word) =~= word);
    lemma_lowered(t, word);
}

proof fn lemma_runtime(t: Seq<char>, api: Backend)
    ensures
        (device::runtime_named(t) == Some(api)) == names(t, api),
{
    reveal_strlit("vulkan");
    reveal_strlit("metal");
    reveal_strlit("dx12");
    reveal_strlit("gl");
    lemma_low(t, "vulkan"@);
    lemma_low(t, "metal"@);
    lemma_low(t, "dx12"@);
    lemma_low(t, "gl"@);
    let l = device::lowered(t);
    assert("vulkan"@.len() == 6 && "metal"@.len() == 5 && "dx12"@.len() == 4 && "gl"@.len() == 2);
}

proof fn lemma_no_colon(t: Seq<char>, at: int)
    requires
        0 <= at <= t.len(),
        !t.contains(':'),
    ensures
        search::found_char(t, ':', at, t.len() as int) is None,
    decreases t.len() - at,
{
    if at < t.len() {
        assert(t.contains(t[at]));
        lemma_no_colon(t, at + 1);
    }
}

proof fn lemma_auto(t: Seq<char>)
    ensures
        (device::lowered(t) == "auto"@) == same_letters(t, "auto"@),
{
    reveal_strlit("auto");
    lemma_low(t, "auto"@);
}

/// A text without white space at its ends.
pub open spec fn tight(t: Seq<char>) -> bool {
    t.len() > 0 ==> !search::white(t[0]) && !search::white(t.last())
}

/// White space around a text does not matter, and no text, or `auto` in letters of
/// either case, asks for any adapter.
pub proof fn law_nothing_asks_for_any_adapter(left: Seq<char>, t: Seq<char>, right: Seq<char>)
    requires
        blank(left),
        blank(right),
        tight(t),
        t.len() == 0 || same_letters(t, "auto"@),
    ensures
        device::selector_of(left + t + right) == Ok::<SelectorView, ErrorView>(SelectorView::Auto),
{
    lemma_trimmed(left, t, right);
    lemma_auto(t);
}

/// A runtime's name, in letters of either case, asks for that runtime's first adapter.
pub proof fn law_a_runtime_asks_for_its_first(
    left: Seq<char>,
    t: Seq<char>,
    right: Seq<char>,
    api: Backend,
)
    requires
        blank(left),
        blank(right),
        tight(t),
        names(t, api),
    ensures
        device::selector_of(left + t + right) == Ok::<SelectorView, ErrorView>(
            SelectorView::Runtime { api, index: 0 },
        ),
{
    lemma_trimmed(left, t, right);
    lemma_runtime(t, api);
    lemma_runtime_is_no_colon(t, api);
    lemma_no_colon(t, 0);
}

/// A runtime's name, a colon and a number ask for that adapter of the runtime.
pub proof fn law_a_number_asks_for_that_adapter(
    left: Seq<char>,
    name: Seq<char>,
    right: Seq<char>,
    api: Backend,
    index: usize,
)
    requires
        blank(left),
        blank(right),
        names(name, api),
    ensures
        device::selector_of(left + (name + seq![':'] + text::decimal(index as nat)) + right) == Ok::<
            SelectorView,
            ErrorView,
        >(SelectorView::Runtime { api, index }),
{
    let digits = text::decimal(index as nat);
    let t = name + seq![':'] + digits;
    lemma_runtime(name, api);
    lemma_runtime_is_no_colon(name, api);
    text::lemma_decimal_digits(index as nat);
    assert(t[0] == name[0]);
    assert(t.last() == digits.last());
    lemma_trimmed(left, t, right);
    assert(Seq::<char>::empty() + t + Seq::<char>::empty() =~= t);
    lemma_trimmed(Seq::<char>::empty(), t, Seq::<char>::empty());
    reveal_strlit(":");
    assert(":"@ =~= seq![':']);
    device::law_a_listed_entry_reads_back(name, api, index);
}

/// Any other text without a colon is a part of an adapter's name, as it stands.
pub proof fn law_other_texts_are_names(left: Seq<char>, t: Seq<char>, right: Seq<char>)
    requires
        blank(left),
        blank(right),
        tight(t),
        t.len() > 0,
        !same_letters(t, "auto"@),
        forall|api: Backend| !names(t, api),
        !t.contains(':'),
    ensures
        device::selector_of(left + t + right) == Ok::<SelectorView, ErrorView>(
            SelectorView::Name(t),
        ),
{
    lemma_trimmed(left, t, right);
    lemma_auto(t);
    lemma_no_colon(t, 0);
    if let Some(api) = device::runtime_named(t) {
        lemma_runtime(t, api);
    }
}

/// A text before a colon that names no runtime is refused.
pub proof fn law_unknown_runtimes_are_refused(
    left: Seq<char>,
    head: Seq<char>,
    tail: Seq<char>,
    right: Seq<char>,
)
    requires
        blank(left),
        blank(right),
        tight(head + seq![':'] + tail),
        !head.contains(':'),
        forall|api: Backend| !names(head, api),
    ensures
        device::selector_of(left + (head + seq![':'] + tail) + right) is Err,
{
    let t = head + seq![':'] + tail;
    lemma_trimmed(left, t, right);
    lemma_auto(t);
    let n = head.len() as int;
    assert(t[n] == ':');
    if same_letters(t, "auto"@) {
        reveal_strlit("auto");
        assert(same_letter(t[n], "auto"@[n]));
        assert(false);
    }
    assert forall|j: int| 0 <= j < n implies #[trigger] t[j] != ':' by {
        assert(t[j] == head[j]);
        assert(head.contains(head[j]));
    }
    search::lemma_found_char_first(t, ':', 0, n, t.len() as int);
    assert(t.take(n) =~= head);
    if let Some(api) = device::runtime_named(head) {
        lemma_runtime(head, api);
    }
}

proof fn lemma_runtime_is_no_colon(t: Seq<char>, api: Backend)
    requires
        names(t, api),
    ensures
        t.len() > 0,
        !t.contains(':'),
        !search::white(t[0]),
        !same_letters(t, "auto"@),
        device::lowered(t) != "auto"@,
{
    reveal_strlit("vulkan");
    reveal_strlit("metal");
    reveal_strlit("dx12");
    reveal_strlit("gl");
    reveal_strlit("auto");
    lemma_auto(t);
    assert forall|i: int| 0 <= i < t.len() implies #[trigger] t[i] != ':' && !search::white(
        t[i],
    ) by {
        if api == Backend::Vulkan {
            assert(same_letter(t[i], "vulkan"@[i]));
        } else if api == Backend::Metal {
            assert(same_letter(t[i], "metal"@[i]));
        } else if api == Backend::Dx12 {
            assert(same_letter(t[i], "dx12"@[i]));
        } else {
            assert(same_letter(t[i], "gl"@[i]));
        }
    }
    if same_letters(t, "auto"@) {
        assert(same_letter(t[0], "auto"@[0]));
        assert(same_letter(t[0], "dx12"@[0]));
    }
}

} // verus!
