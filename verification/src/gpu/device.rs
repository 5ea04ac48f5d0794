//! Choosing a device: what a user may ask for, which adapter that is, and what the
//! kernels need to know of it.

use vstd::prelude::*;
use vstd::string::*;

use crate::error;
use crate::error::{Detail, Error, ErrorView, Fault};
use crate::gpu::recorder::MIB;
use crate::search;
use crate::text;

verus! {

/// The runtimes an adapter can be reached by.
#[derive(Debug, Clone, Copy, PartialEq, Eq, Structural)]
pub enum Backend {
    Noop,
    Vulkan,
    Metal,
    Dx12,
    Gl,
    BrowserWebGpu,
}

/// What an adapter is.
#[derive(Debug, Clone, Copy, PartialEq, Eq, Structural)]
pub enum DeviceType {
    Other,
    IntegratedGpu,
    DiscreteGpu,
    VirtualGpu,
    Cpu,
}

/// An adapter as its driver reports it.
#[derive(Debug, Clone)]
pub struct Adapter {
    pub name: String,
    pub vendor: u32,
    pub device_type: DeviceType,
    pub driver: String,
    pub driver_info: String,
    pub backend: Backend,
    pub subgroup_min: u32,
    pub subgroup_max: u32,
}

impl Backend {
    /// What the runtime is called.
    pub open spec fn title(self) -> Seq<char> {
        match self {
            Backend::Noop => "Noop"@,
            Backend::Vulkan => "Vulkan"@,
            Backend::Metal => "Metal"@,
            Backend::Dx12 => "Dx12"@,
            Backend::Gl => "Gl"@,
            Backend::BrowserWebGpu => "BrowserWebGpu"@,
        }
    }

    fn title_text(self) -> (r: &'static str)
        ensures
            r@ == self.title(),
    {
        match self {
            Backend::Noop => "Noop",
            Backend::Vulkan => "Vulkan",
            Backend::Metal => "Metal",
            Backend::Dx12 => "Dx12",
            Backend::Gl => "Gl",
            Backend::BrowserWebGpu => "BrowserWebGpu",
        }
    }
}

impl DeviceType {
    /// How the device is called in lists.
    pub open spec fn kind(self) -> Seq<char> {
        match self {
            DeviceType::DiscreteGpu => "dGPU"@,
            DeviceType::IntegratedGpu => "iGPU"@,
            DeviceType::Cpu => "CPU"@,
            DeviceType::VirtualGpu => "vGPU"@,
            DeviceType::Other => "other"@,
        }
    }

    fn kind_text(self) -> (r: &'static str)
        ensures
            r@ == self.kind(),
    {
        match self {
            DeviceType::DiscreteGpu => "dGPU",
            DeviceType::IntegratedGpu => "iGPU",
            DeviceType::Cpu => "CPU",
            DeviceType::VirtualGpu => "vGPU",
            DeviceType::Other => "other",
        }
    }
}

/// Whether a butterfly over 32 lanes reduces correctly: only an exact promise of 32
/// lanes will do. A range that holds 32 folds across the wrong ones.
pub fn shuffle_reduction_is_safe(subgroups: bool, min: u32, max: u32) -> (r: bool)
    ensures
        r == (subgroups && min == 32 && max == 32),
{
    subgroups && min == 32 && max == 32
}

// --------------------------------------------------------------------- selectors

/// What a selector stands for.
pub enum SelectorView {
    Auto,
    Runtime { api: Backend, index: usize },
    Name(Seq<char>),
}

/// Which adapter to use.
#[derive(Debug, Clone, PartialEq, Eq)]
pub enum DeviceSelector {
    /// The best discrete GPU, then integrated, then whatever is left.
    Auto,
    /// A runtime and the n-th adapter of it, as in `vulkan:0`.
    Runtime { api: Backend, index: usize },
    /// A part of the adapter's name, as in `nvidia`.
    Name(String),
}

impl View for DeviceSelector {
    type V = SelectorView;

    open spec fn view(&self) -> SelectorView {
        match self {
            DeviceSelector::Auto => SelectorView::Auto,
            DeviceSelector::Runtime { api, index } => SelectorView::Runtime {
                api: *api,
                index: *index,
            },
            DeviceSelector::Name(n) => SelectorView::Name(n@),
        }
    }
}

impl Default for DeviceSelector {
    fn default() -> (r: Self)
        ensures
            r == DeviceSelector::Auto,
    {
        DeviceSelector::Auto
    }
}

/// A letter in lower case; only the letters of ASCII have one.
pub open spec fn lower(c: char) -> char {
    if 'A' <= c && c <= 'Z' {
        (c as u32 + 32) as char
    } else {
        c
    }
}

fn lower_of(c: char) -> (r: char)
    ensures
        r == lower(c),
{
    if 'A' <= c && c <= 'Z' {
        (c as u8 + 32) as char
    } else {
        c
    }
}

/// A text in lower case.
pub open spec fn lowered(t: Seq<char>) -> Seq<char> {
    Seq::new(t.len(), |i: int| lower(t[i]))
}

fn lowered_of(t: &str) -> (r: Vec<char>)
    ensures
        r@ == lowered(t@),
{
    let chars: Vec<char> = text::chars_of(t);
    let mut r: Vec<char> = Vec::new();
    let mut i: usize = 0;
    while i < chars.len()
        invariant
            i <= chars@.len(),
            chars@ == t@,
            r@.len() == i,
            forall|j: int| 0 <= j < i ==> (#[trigger] r@[j]) == lower(t@[j]),
        decreases chars@.len() - i,
    {
        r.push(lower_of(chars[i]));
        i += 1;
    }
    assert(r@ =~= lowered(t@));
    r
}

/// Whether two texts are the same but for case.
fn same_lowered(t: &str, other: &str) -> (r: bool)
    ensures
        r == (lowered(t@) == other@),
{
    let a: Vec<char> = lowered_of(t);
    let b: Vec<char> = text::chars_of(other);
    if a.len() != b.len() {
        return false;
    }
    let mut i: usize = 0;
    while i < a.len()
        invariant
            i <= a@.len(),
            a@ == lowered(t@),
            b@ == other@,
            a@.len() == b@.len(),
            forall|j: int| 0 <= j < i ==> a@[j] == b@[j],
        decreases a@.len() - i,
    {
        if a[i] != b[i] {
            return false;
        }
        i += 1;
    }
    assert(a@ =~= b@);
    true
}

/// The runtime of that name.
pub open spec fn runtime_named(t: Seq<char>) -> Option<Backend> {
    let name = lowered(t);
    if name == "vulkan"@ {
        Some(Backend::Vulkan)
    } else if name == "metal"@ {
        Some(Backend::Metal)
    } else if name == "dx12"@ {
        Some(Backend::Dx12)
    } else if name == "gl"@ {
        Some(Backend::Gl)
    } else {
        None
    }
}

fn runtime_of(t: &str) -> (r: Option<Backend>)
    ensures
        r == runtime_named(t@),
{
    if same_lowered(t, "vulkan") {
        Some(Backend::Vulkan)
    } else if same_lowered(t, "metal") {
        Some(Backend::Metal)
    } else if same_lowered(t, "dx12") {
        Some(Backend::Dx12)
    } else if same_lowered(t, "gl") {
        Some(Backend::Gl)
    } else {
        None
    }
}

/// What a text asks for: nothing in particular, a runtime with or without an index, or
/// a part of a name.
pub open spec fn selector_of(spec: Seq<char>) -> Result<SelectorView, ErrorView> {
    let t = search::trimmed(spec);
    if t.len() == 0 || lowered(t) == "auto"@ {
        Ok(SelectorView::Auto)
    } else {
        let colon = search::found_char(t, ':', 0, t.len() as int);
        let head = match colon {
            Some(c) => t.take(c),
            None => t,
        };
        match (runtime_named(head), colon) {
            (Some(api), Some(c)) => match text::parsed_usize(t.skip(c + 1)) {
                Some(index) => Ok(SelectorView::Runtime { api, index: index as usize }),
                None => Err(
                    Error::GpuOf(
                        Detail::AdapterText {
                            text: t.skip(c + 1),
                            reason: text::number_fault(t.skip(c + 1)),
                        },
                    ),
                ),
            },
            (Some(api), None) => Ok(SelectorView::Runtime { api, index: 0 }),
            (None, Some(_)) => Err(Error::GpuOf(Detail::SelectorText { text: t })),
            (None, None) => Ok(SelectorView::Name(t)),
        }
    }
}

impl DeviceSelector {
    /// Reads what a user asks for.
    pub fn parse(spec: &str) -> (r: Result<Self, Error>)
        ensures
            match r {
                Ok(s) => selector_of(spec@) == Ok::<SelectorView, ErrorView>(s@),
                Err(e) => selector_of(spec@) == Err::<SelectorView, ErrorView>(e@),
            },
    {
        let t = search::trim(spec);
        if t.is_empty() || same_lowered(t, "auto") {
            return Ok(DeviceSelector::Auto);
        }
        let chars: Vec<char> = text::chars_of(t);
        let len: usize = chars.len();
        match search::find_char(&chars, ':', 0, len) {
            Some(colon) => {
                let head = t.substring_char(0, colon);
                let tail = t.substring_char(colon + 1, len);
                assert(head@ =~= t@.take(colon as int));
                assert(tail@ =~= t@.skip(colon as int + 1));
                match runtime_of(head) {
                    Some(api) => match text::parse_usize(tail) {
                        Ok(index) => Ok(DeviceSelector::Runtime { api, index }),
                        Err(reason) => Err(
                            Error::GpuOf(
                                Detail::AdapterText {
                                    text: String::from_str(tail),
                                    reason: String::from_str(reason),
                                },
                            ),
                        ),
                    },
                    None => Err(
                        Error::GpuOf(Detail::SelectorText { text: String::from_str(t) }),
                    ),
                }
            },
            None => match runtime_of(t) {
                Some(api) => Ok(DeviceSelector::Runtime { api, index: 0 }),
                None => Ok(DeviceSelector::Name(String::from_str(t))),
            },
        }
    }

    /// The one runtime to look in, or all.
    pub fn backends(&self) -> (r: Option<Backend>)
        ensures
            r == match self@ {
                SelectorView::Runtime { api, .. } => Some(api),
                _ => None,
            },
    {
        match self {
            DeviceSelector::Runtime { api, index: _ } => Some(*api),
            _ => None,
        }
    }

    /// Whether an adapter is one of those asked for.
    pub open spec fn accepts_spec(s: SelectorView, a: Adapter) -> bool {
        match s {
            SelectorView::Auto => true,
            SelectorView::Runtime { api, .. } => a.backend == api,
            SelectorView::Name(part) => part.len() == 0 || search::found(
                lowered(a.name@),
                lowered(part),
                0,
                a.name@.len() as int,
            ) is Some,
        }
    }

    /// Whether an adapter is one of those asked for.
    pub fn accepts(&self, a: &Adapter) -> (r: bool)
        ensures
            r == Self::accepts_spec(self@, *a),
    {
        match self {
            DeviceSelector::Auto => true,
            DeviceSelector::Runtime { api, index: _ } => a.backend == *api,
            DeviceSelector::Name(part) => {
                let name: Vec<char> = lowered_of(a.name.as_str());
                let wanted: Vec<char> = lowered_of(part.as_str());
                if wanted.len() == 0 {
                    return true;
                }
                match search::find(&name, &wanted, 0, name.len()) {
                    Some(_) => true,
                    None => false,
                }
            },
        }
    }
}

// ----------------------------------------------------------------------- ranking

/// How good an adapter is, the best first: what it is, then how it is reached.
pub open spec fn rank_spec(a: Adapter) -> (u8, u8) {
    (
        match a.device_type {
            DeviceType::DiscreteGpu => 0,
            DeviceType::IntegratedGpu => 1,
            DeviceType::VirtualGpu => 2,
            _ => 3,
        },
        match a.backend {
            Backend::Vulkan => 0,
            Backend::Metal => 1,
            Backend::Dx12 => 2,
            _ => 3,
        },
    )
}

/// How good an adapter is.
pub fn rank(a: &Adapter) -> (r: (u8, u8))
    ensures
        r == rank_spec(*a),
{
    let class: u8 = match a.device_type {
        DeviceType::DiscreteGpu => 0,
        DeviceType::IntegratedGpu => 1,
        DeviceType::VirtualGpu => 2,
        _ => 3,
    };
    let api: u8 = match a.backend {
        Backend::Vulkan => 0,
        Backend::Metal => 1,
        Backend::Dx12 => 2,
        _ => 3,
    };
    (class, api)
}

/// Whether the first adapter ranks behind the second.
pub open spec fn behind(a: Adapter, b: Adapter) -> bool {
    rank_spec(a).0 > rank_spec(b).0 || (rank_spec(a).0 == rank_spec(b).0 && rank_spec(a).1
        > rank_spec(b).1)
}

fn is_behind(a: &Adapter, b: &Adapter) -> (r: bool)
    ensures
        r == behind(*a, *b),
{
    let x = rank(a);
    let y = rank(b);
    x.0 > y.0 || (x.0 == y.0 && x.1 > y.1)
}

/// A ranked list of adapters, by number, with one more behind those as good.
pub open spec fn placed(adapters: Seq<Adapter>, order: Seq<usize>, i: usize) -> Seq<usize>
    decreases order.len(),
{
    if order.len() == 0 || !behind(adapters[order.last() as int], adapters[i as int]) {
        order.push(i)
    } else {
        placed(adapters, order.drop_last(), i).push(order.last())
    }
}

/// Adapters, by number, the best first; those as good stay in their order.
pub open spec fn ranked(adapters: Seq<Adapter>, numbers: Seq<usize>) -> Seq<usize>
    decreases numbers.len(),
{
    if numbers.len() == 0 {
        Seq::empty()
    } else {
        placed(adapters, ranked(adapters, numbers.drop_last()), numbers.last())
    }
}

/// The adapters asked for among those numbered, in their order.
pub open spec fn accepted(
    adapters: Seq<Adapter>,
    selector: SelectorView,
    numbers: Seq<usize>,
) -> Seq<usize>
    decreases numbers.len(),
{
    if numbers.len() == 0 {
        Seq::empty()
    } else {
        let before = accepted(adapters, selector, numbers.drop_last());
        if DeviceSelector::accepts_spec(selector, adapters[numbers.last() as int]) {
            before.push(numbers.last())
        } else {
            before
        }
    }
}

/// The numbers of `n` adapters.
pub open spec fn numbered(n: nat) -> Seq<usize> {
    Seq::new(n, |i: int| i as usize)
}

/// Whether every number is an adapter's.
pub open spec fn known(adapters: Seq<Adapter>, numbers: Seq<usize>) -> bool {
    forall|k: int| 0 <= k < numbers.len() ==> #[trigger] numbers[k] < adapters.len()
}

proof fn lemma_placed(adapters: Seq<Adapter>, order: Seq<usize>, i: usize, k: int)
    requires
        0 <= k <= order.len(),
        k > 0 ==> !behind(adapters[order[k - 1] as int], adapters[i as int]),
        forall|j: int|
            k <= j < order.len() ==> behind(
                adapters[#[trigger] order[j] as int],
                adapters[i as int],
            ),
    ensures
        placed(adapters, order, i) == order.insert(k, i),
    decreases order.len(),
{
    if k == order.len() {
        assert(order.insert(k, i) =~= order.push(i));
    } else {
        lemma_placed(adapters, order.drop_last(), i, k);
        assert(order.insert(k, i) =~= order.drop_last().insert(k, i).push(order.last()));
    }
}

/// The adapters asked for, by number, the best first.
pub open spec fn candidates(adapters: Seq<Adapter>, selector: SelectorView) -> Seq<usize> {
    ranked(adapters, accepted(adapters, selector, numbered(adapters.len())))
}

fn find_candidates(adapters: &Vec<Adapter>, selector: &DeviceSelector) -> (r: Vec<usize>)
    ensures
        r@ == candidates(adapters@, selector@),
        known(adapters@, r@),
{
    let have: usize = adapters.len();
    let ghost all = numbered(adapters@.len());
    let mut r: Vec<usize> = Vec::new();
    let mut i: usize = 0;
    assert(all.take(0) =~= Seq::<usize>::empty());
    while i < adapters.len()
        invariant
            i <= adapters@.len(),
            have == adapters@.len(),
            all == numbered(adapters@.len()),
            known(adapters@, r@),
            r@ == ranked(adapters@, accepted(adapters@, selector@, all.take(i as int))),
        decreases adapters@.len() - i,
    {
        proof {
            let next = all.take(i as int + 1);
            assert(next.drop_last() =~= all.take(i as int));
            assert(next.last() == i);
        }
        if selector.accepts(&adapters[i]) {
            let mut k: usize = r.len();
            while k > 0 && is_behind(&adapters[r[k - 1]], &adapters[i])
                invariant
                    k <= r@.len(),
                    i < adapters@.len(),
                    known(adapters@, r@),
                    forall|j: int|
                        k <= j < r@.len() ==> behind(
                            adapters@[#[trigger] r@[j] as int],
                            adapters@[i as int],
                        ),
                decreases k,
            {
                k -= 1;
            }
            proof {
                lemma_placed(adapters@, r@, i, k as int);
                let hits = accepted(adapters@, selector@, all.take(i as int));
                assert(hits.push(i).drop_last() =~= hits);
            }
            let ghost before = r@;
            r.insert(k, i);
            assert forall|j: int| 0 <= j < r@.len() implies #[trigger] r@[j] < adapters@.len() by {
                if j < k {
                    assert(r@[j] == before[j]);
                } else if j > k {
                    assert(r@[j] == before[j - 1]);
                }
            }
        }
        i += 1;
    }
    assert(all.take(i as int) =~= all);
    r
}

/// A text in quotes, as `std` writes it for debugging: with escapes where the text holds
/// a quote, a backslash or something that does not print.
pub uninterp spec fn debug_text(t: Seq<char>) -> Seq<char>;

/// Quotes a text by `std`'s `Debug` of `str`. The claim: the result is a function of the
/// text alone, [`debug_text`].
#[verifier::external_body]
fn quoted(t: &str) -> (r: String)
    ensures
        r@ == debug_text(t@),
{
    format!("{t:?}")
}

/// A selector as a message shows it.
pub open spec fn shown(selector: SelectorView) -> Seq<char> {
    match selector {
        SelectorView::Auto => "Auto"@,
        SelectorView::Runtime { api, index } => "Runtime { api: "@ + api.title() + ", index: "@
            + text::decimal(index as nat) + " }"@,
        SelectorView::Name(part) => "Name("@ + debug_text(part) + ")"@,
    }
}

fn shown_text(selector: &DeviceSelector) -> (r: String)
    ensures
        r@ == shown(selector@),
{
    match selector {
        DeviceSelector::Auto => String::from_str("Auto"),
        DeviceSelector::Runtime { api, index } => {
            let mut r = String::from_str("Runtime { api: ");
            r.append(api.title_text());
            r.append(", index: ");
            r.append(text::decimal_text(*index as u64).as_str());
            r.append(" }");
            r
        },
        DeviceSelector::Name(part) => {
            let mut r = String::from_str("Name(");
            r.append(quoted(part.as_str()).as_str());
            r.append(")");
            r
        },
    }
}

/// The adapter a selector picks, by number: the best, or of a runtime the n-th best.
pub open spec fn picked(adapters: Seq<Adapter>, selector: SelectorView) -> Result<
    usize,
    ErrorView,
> {
    let hits = candidates(adapters, selector);
    if hits.len() == 0 {
        Err(Error::GpuOf(Detail::NoAdapter { selector: shown(selector) }))
    } else {
        match selector {
            SelectorView::Runtime { index, .. } => if index < hits.len() {
                Ok(hits[index as int])
            } else {
                Err(Error::Gpu(Fault::AdapterIndex { index, found: hits.len() as usize }))
            },
            _ => Ok(hits[0]),
        }
    }
}

/// The adapter a selector picks, by number.
pub fn pick(adapters: &Vec<Adapter>, selector: &DeviceSelector) -> (r: Result<usize, Error>)
    ensures
        error::told(r) == picked(adapters@, selector@),
        r matches Ok(i) ==> i < adapters@.len(),
{
    let hits = find_candidates(adapters, selector);
    if hits.len() == 0 {
        return Err(Error::GpuOf(Detail::NoAdapter { selector: shown_text(selector) }));
    }
    match selector {
        DeviceSelector::Runtime { api: _, index } => if *index < hits.len() {
            Ok(hits[*index])
        } else {
            Err(Error::Gpu(Fault::AdapterIndex { index: *index, found: hits.len() }))
        },
        _ => Ok(hits[0]),
    }
}

// ----------------------------------------------------------------------- listing

/// One adapter as a list shows it.
#[derive(Debug, Clone)]
pub struct AdapterEntry {
    pub runtime: String,
    /// The index that a selector addresses within the runtime.
    pub index: usize,
    pub name: String,
    pub kind: String,
}

/// What an entry stands for.
#[verifier::ext_equal]
pub struct EntryView {
    pub runtime: Seq<char>,
    pub index: usize,
    pub name: Seq<char>,
    pub kind: Seq<char>,
}

impl View for AdapterEntry {
    type V = EntryView;

    open spec fn view(&self) -> EntryView {
        EntryView {
            runtime: self.runtime@,
            index: self.index,
            name: self.name@,
            kind: self.kind@,
        }
    }
}

/// The adapters of one runtime among those numbered, in their order.
pub open spec fn of_runtime(
    adapters: Seq<Adapter>,
    numbers: Seq<usize>,
    api: Backend,
) -> Seq<usize> {
    accepted(adapters, SelectorView::Runtime { api, index: 0 }, numbers)
}

/// The entries of one runtime, the best adapter first.
pub open spec fn runtime_entries(
    adapters: Seq<Adapter>,
    api: Backend,
    runtime: Seq<char>,
) -> Seq<EntryView> {
    let order = of_runtime(adapters, ranked(adapters, numbered(adapters.len())), api);
    Seq::new(
        order.len(),
        |k: int|
            EntryView {
                runtime,
                index: k as usize,
                name: adapters[order[k] as int].name@,
                kind: adapters[order[k] as int].device_type.kind(),
            },
    )
}

/// Every adapter, runtime by runtime.
pub open spec fn listing(adapters: Seq<Adapter>) -> Seq<EntryView> {
    runtime_entries(adapters, Backend::Vulkan, "vulkan"@) + runtime_entries(
        adapters,
        Backend::Dx12,
        "dx12"@,
    ) + runtime_entries(adapters, Backend::Gl, "gl"@) + runtime_entries(
        adapters,
        Backend::Metal,
        "metal"@,
    )
}

pub open spec fn entries_view(list: Seq<AdapterEntry>) -> Seq<EntryView> {
    Seq::new(list.len(), |i: int| list[i]@)
}

fn add_runtime(
    out: &mut Vec<AdapterEntry>,
    adapters: &Vec<Adapter>,
    order: &Vec<usize>,
    api: Backend,
    runtime: &str,
)
    requires
        known(adapters@, order@),
        order@ == ranked(adapters@, numbered(adapters@.len())),
    ensures
        entries_view(final(out)@) == entries_view(old(out)@) + runtime_entries(
            adapters@,
            api,
            runtime@,
        ),
{
    let ghost before = entries_view(out@);
    let ghost mine = of_runtime(adapters@, order@, api);
    let mut index: usize = 0;
    let mut i: usize = 0;
    assert(order@.take(0) =~= Seq::<usize>::empty());
    assert(entries_view(out@) =~= before + runtime_entries(adapters@, api, runtime@).take(0));
    proof {
        lemma_accepted_prefix(
            adapters@,
            SelectorView::Runtime { api, index: 0 },
            order@,
            order@.len() as int,
        );
    }
    while i < order.len()
        invariant
            i <= order@.len(),
            index <= i,
            known(adapters@, order@),
            order@ == ranked(adapters@, numbered(adapters@.len())),
            mine == of_runtime(adapters@, order@, api),
            index == of_runtime(adapters@, order@.take(i as int), api).len(),
            index <= mine.len(),
            entries_view(out@) == before + runtime_entries(adapters@, api, runtime@).take(
                index as int,
            ),
        decreases order@.len() - i,
    {
        let at: usize = order[i];
        let ghost next = order@.take(i as int + 1);
        proof {
            assert(next.drop_last() =~= order@.take(i as int));
            assert(next.last() == at);
            lemma_accepted_prefix(
                adapters@,
                SelectorView::Runtime { api, index: 0 },
                order@,
                i as int + 1,
            );
        }
        if adapters[at].backend == api {
            let entry = AdapterEntry {
                runtime: String::from_str(runtime),
                index,
                name: adapters[at].name.clone(),
                kind: String::from_str(adapters[at].device_type.kind_text()),
            };
            proof {
                let prefix = of_runtime(adapters@, next, api);
                assert(prefix.last() == at);
                assert(mine[index as int] == prefix[index as int]);
                assert(entry@ == runtime_entries(adapters@, api, runtime@)[index as int]);
            }
            let ghost shown = entries_view(out@);
            out.push(entry);
            index += 1;
            proof {
                assert(entries_view(out@) =~= shown.push(entry@));
                assert(entries_view(out@) =~= before + runtime_entries(
                    adapters@,
                    api,
                    runtime@,
                ).take(index as int));
            }
        }
        i += 1;
    }
    assert(order@.take(i as int) =~= order@);
    assert(runtime_entries(adapters@, api, runtime@).take(index as int) =~= runtime_entries(
        adapters@,
        api,
        runtime@,
    ));
}

/// What is accepted of the first numbers comes first in what is accepted of all.
proof fn lemma_accepted_prefix(
    adapters: Seq<Adapter>,
    selector: SelectorView,
    numbers: Seq<usize>,
    n: int,
)
    requires
        0 <= n <= numbers.len(),
    ensures
        ({
            let part = accepted(adapters, selector, numbers.take(n));
            let all = accepted(adapters, selector, numbers);
            &&& part.len() <= all.len()
            &&& part.len() <= n
            &&& forall|k: int| 0 <= k < part.len() ==> part[k] == all[k]
        }),
    decreases numbers.len(),
{
    if n < numbers.len() {
        lemma_accepted_prefix(adapters, selector, numbers.drop_last(), n);
        assert(numbers.drop_last().take(n) =~= numbers.take(n));
    } else {
        assert(numbers.take(n) =~= numbers);
        if numbers.len() > 0 {
            lemma_accepted_prefix(
                adapters,
                selector,
                numbers.drop_last(),
                numbers.len() - 1,
            );
            assert(numbers.drop_last().take(numbers.len() - 1) =~= numbers.drop_last());
        }
    }
}

/// Every adapter, grouped by runtime and ranked within it. The first of each runtime is
/// what the bare runtime picks.
pub fn list_adapters(adapters: &Vec<Adapter>) -> (r: Vec<AdapterEntry>)
    ensures
        entries_view(r@) == listing(adapters@),
{
    let order = find_candidates(adapters, &DeviceSelector::Auto);
    proof {
        lemma_all_accepted(adapters@, numbered(adapters@.len()));
    }
    let mut out: Vec<AdapterEntry> = Vec::new();
    assert(entries_view(out@) =~= Seq::<EntryView>::empty());
    add_runtime(&mut out, adapters, &order, Backend::Vulkan, "vulkan");
    add_runtime(&mut out, adapters, &order, Backend::Dx12, "dx12");
    add_runtime(&mut out, adapters, &order, Backend::Gl, "gl");
    add_runtime(&mut out, adapters, &order, Backend::Metal, "metal");
    assert(entries_view(out@) =~= listing(adapters@));
    out
}

proof fn lemma_all_accepted(adapters: Seq<Adapter>, numbers: Seq<usize>)
    ensures
        accepted(adapters, SelectorView::Auto, numbers) == numbers,
    decreases numbers.len(),
{
    if numbers.len() > 0 {
        lemma_all_accepted(adapters, numbers.drop_last());
        assert(numbers.drop_last().push(numbers.last()) =~= numbers);
    } else {
        assert(numbers =~= Seq::<usize>::empty());
    }
}

// -------------------------------------------------------------------------- laws

/// Whether a list is ranked.
spec fn in_order(adapters: Seq<Adapter>, order: Seq<usize>) -> bool {
    forall|i: int, j: int|
        0 <= i <= j < order.len() ==> !behind(
            adapters[#[trigger] order[i] as int],
            adapters[#[trigger] order[j] as int],
        )
}

proof fn lemma_placed_order(adapters: Seq<Adapter>, order: Seq<usize>, i: usize)
    requires
        in_order(adapters, order),
    ensures
        in_order(adapters, placed(adapters, order, i)),
        placed(adapters, order, i).len() == order.len() + 1,
        forall|k: int|
            0 <= k <= order.len() ==> {
                ||| placed(adapters, order, i)[k] == i
                ||| exists|j: int|
                    0 <= j < order.len() && order[j] == #[trigger] placed(adapters, order, i)[k]
            },
    decreases order.len(),
{
    if order.len() == 0 || !behind(adapters[order.last() as int], adapters[i as int]) {
        let all = order.push(i);
        assert forall|a: int, b: int| 0 <= a <= b < all.len() implies !behind(
            adapters[#[trigger] all[a] as int],
            adapters[#[trigger] all[b] as int],
        ) by {
            if b == order.len() && a < order.len() {
                assert(!behind(
                    adapters[order[a] as int],
                    adapters[order[order.len() - 1] as int],
                ));
            }
        }
        assert forall|k: int| 0 <= k <= order.len() implies {
            ||| placed(adapters, order, i)[k] == i
            ||| exists|j: int|
                0 <= j < order.len() && order[j] == #[trigger] placed(adapters, order, i)[k]
        } by {
            if k < order.len() {
                assert(order[k] == placed(adapters, order, i)[k]);
            }
        }
    } else {
        let front = order.drop_last();
        lemma_placed_order(adapters, front, i);
        let inner = placed(adapters, front, i);
        let all = inner.push(order.last());
        assert forall|a: int, b: int| 0 <= a <= b < all.len() implies !behind(
            adapters[#[trigger] all[a] as int],
            adapters[#[trigger] all[b] as int],
        ) by {
            if b < inner.len() {
                assert(all[a] == inner[a] && all[b] == inner[b]);
            } else if a < inner.len() {
                assert(all[a] == inner[a]);
                if inner[a] != i {
                    let j = choose|j: int| 0 <= j < front.len() && front[j] == inner[a];
                    assert(order[j] == inner[a]);
                    assert(!behind(
                        adapters[order[j] as int],
                        adapters[order[order.len() - 1] as int],
                    ));
                }
            }
        }
        assert forall|k: int| 0 <= k <= order.len() implies {
            ||| placed(adapters, order, i)[k] == i
            ||| exists|j: int|
                0 <= j < order.len() && order[j] == #[trigger] placed(adapters, order, i)[k]
        } by {
            if k < inner.len() {
                if inner[k] != i {
                    let j = choose|j: int| 0 <= j < front.len() && front[j] == inner[k];
                    assert(order[j] == placed(adapters, order, i)[k]);
                }
            } else {
                assert(order[order.len() - 1] == placed(adapters, order, i)[k]);
            }
        }
    }
}

proof fn lemma_ranked_order(adapters: Seq<Adapter>, numbers: Seq<usize>)
    ensures
        in_order(adapters, ranked(adapters, numbers)),
    decreases numbers.len(),
{
    if numbers.len() > 0 {
        lemma_ranked_order(adapters, numbers.drop_last());
        lemma_placed_order(adapters, ranked(adapters, numbers.drop_last()), numbers.last());
    }
}

proof fn lemma_accepted_push(
    adapters: Seq<Adapter>,
    selector: SelectorView,
    order: Seq<usize>,
    i: usize,
)
    ensures
        accepted(adapters, selector, order.push(i)) == if DeviceSelector::accepts_spec(
            selector,
            adapters[i as int],
        ) {
            accepted(adapters, selector, order).push(i)
        } else {
            accepted(adapters, selector, order)
        },
{
    assert(order.push(i).drop_last() =~= order);
}

/// What is accepted is among what there is.
proof fn lemma_accepted_member(
    adapters: Seq<Adapter>,
    selector: SelectorView,
    order: Seq<usize>,
    k: int,
)
    requires
        0 <= k < accepted(adapters, selector, order).len(),
    ensures
        exists|j: int| 0 <= j < order.len() && #[trigger] order[j] == accepted(adapters, selector, order)[k],
    decreases order.len(),
{
    let front = order.drop_last();
    let before = accepted(adapters, selector, front);
    if k < before.len() {
        lemma_accepted_member(adapters, selector, front, k);
        let j = choose|j: int| 0 <= j < front.len() && #[trigger] front[j] == before[k];
        assert(order[j] == before[k]);
    } else {
        assert(order[order.len() - 1] == accepted(adapters, selector, order)[k]);
    }
}

proof fn lemma_placed_accepted(
    adapters: Seq<Adapter>,
    selector: SelectorView,
    order: Seq<usize>,
    i: usize,
)
    requires
        in_order(adapters, order),
    ensures
        accepted(adapters, selector, placed(adapters, order, i)) == if DeviceSelector::accepts_spec(
            selector,
            adapters[i as int],
        ) {
            placed(adapters, accepted(adapters, selector, order), i)
        } else {
            accepted(adapters, selector, order)
        },
    decreases order.len(),
{
    let some = accepted(adapters, selector, order);
    if order.len() == 0 || !behind(adapters[order.last() as int], adapters[i as int]) {
        lemma_accepted_push(adapters, selector, order, i);
        if some.len() > 0 {
            lemma_accepted_member(adapters, selector, order, some.len() - 1);
            let j = choose|j: int| 0 <= j < order.len() && #[trigger] order[j] == some[some.len() - 1];
            assert(!behind(
                adapters[order[j] as int],
                adapters[order[order.len() - 1] as int],
            ));
        }
    } else {
        let front = order.drop_last();
        let last = order.last();
        lemma_placed_accepted(adapters, selector, front, i);
        lemma_accepted_push(adapters, selector, placed(adapters, front, i), last);
        lemma_accepted_push(adapters, selector, front, last);
        assert(front.push(last) =~= order);
        if DeviceSelector::accepts_spec(selector, adapters[last as int]) {
            let before = accepted(adapters, selector, front);
            assert(some == before.push(last));
            assert(some.drop_last() =~= before);
        }
    }
}

/// Ranking what is accepted is accepting from what is ranked.
proof fn lemma_ranking_commutes(
    adapters: Seq<Adapter>,
    selector: SelectorView,
    numbers: Seq<usize>,
)
    ensures
        accepted(adapters, selector, ranked(adapters, numbers)) == ranked(
            adapters,
            accepted(adapters, selector, numbers),
        ),
    decreases numbers.len(),
{
    if numbers.len() > 0 {
        let front = numbers.drop_last();
        lemma_ranking_commutes(adapters, selector, front);
        lemma_ranked_order(adapters, front);
        lemma_placed_accepted(adapters, selector, ranked(adapters, front), numbers.last());
        let before = accepted(adapters, selector, front);
        if DeviceSelector::accepts_spec(selector, adapters[numbers.last() as int]) {
            assert(before.push(numbers.last()).drop_last() =~= before);
        }
    }
}

proof fn lemma_runtime_index(adapters: Seq<Adapter>, api: Backend, a: usize, b: usize, numbers: Seq<usize>)
    ensures
        accepted(adapters, SelectorView::Runtime { api, index: a }, numbers) == accepted(
            adapters,
            SelectorView::Runtime { api, index: b },
            numbers,
        ),
    decreases numbers.len(),
{
    if numbers.len() > 0 {
        lemma_runtime_index(adapters, api, a, b, numbers.drop_last());
    }
}

/// The index a list shows is the one a selector addresses: the entry at `index` of a
/// runtime is the adapter that runtime and index pick.
pub proof fn law_a_listed_index_is_picked(
    adapters: Seq<Adapter>,
    api: Backend,
    runtime: Seq<char>,
    index: usize,
)
    requires
        index < runtime_entries(adapters, api, runtime).len(),
    ensures
        ({
            let entry = runtime_entries(adapters, api, runtime)[index as int];
            &&& entry.index == index
            &&& picked(adapters, SelectorView::Runtime { api, index }) matches Ok(i)
                && entry.name == adapters[i as int].name@ && entry.kind
                == adapters[i as int].device_type.kind()
        }),
{
    let all = numbered(adapters.len());
    lemma_ranking_commutes(adapters, SelectorView::Runtime { api, index: 0 }, all);
    lemma_runtime_index(adapters, api, 0, index, all);
}

proof fn lemma_runtime_letters(name: Seq<char>)
    requires
        runtime_named(name) is Some,
    ensures
        name.len() > 0,
        forall|i: int|
            0 <= i < name.len() ==> #[trigger] name[i] != ':' && !search::white(name[i]),
{
    reveal_strlit("vulkan");
    reveal_strlit("metal");
    reveal_strlit("dx12");
    reveal_strlit("gl");
    assert(lowered(name).len() == name.len());
    assert forall|i: int| 0 <= i < name.len() implies #[trigger] name[i] != ':' && !search::white(
        name[i],
    ) by {
        assert(lowered(name)[i] == lower(name[i]));
    }
}

/// What a list shows reads back: a runtime's name, a colon and an index ask for that
/// index of that runtime.
pub proof fn law_a_listed_entry_reads_back(name: Seq<char>, api: Backend, index: usize)
    requires
        runtime_named(name) == Some(api),
    ensures
        selector_of(name + ":"@ + text::decimal(index as nat)) == Ok::<SelectorView, ErrorView>(
            SelectorView::Runtime { api, index },
        ),
{
    let digits = text::decimal(index as nat);
    let t = name + ":"@ + digits;
    reveal_strlit(":");
    reveal_strlit("auto");
    lemma_runtime_letters(name);
    text::lemma_decimal_digits(index as nat);
    text::law_decimal_parses_back(index as nat);
    assert(t[name.len() as int] == ':');
    assert(t[0] == name[0]);
    assert(t[t.len() - 1] == digits[digits.len() - 1]);
    assert(search::past_white(t, 0) == 0);
    assert(search::before_white(t, 0, t.len() as int) == t.len());
    assert(search::trimmed(t) =~= t);
    assert(lowered(t) != "auto"@) by {
        assert(lowered(t)[name.len() as int] == ':');
        assert(forall|k: int| 0 <= k < "auto"@.len() ==> "auto"@[k] != ':');
    }
    assert forall|j: int| 0 <= j < name.len() implies #[trigger] t[j] != ':' by {
        assert(t[j] == name[j]);
    }
    search::lemma_found_char_first(t, ':', 0, name.len() as int, t.len() as int);
    assert(t.take(name.len() as int) =~= name);
    assert(t.skip(name.len() as int + 1) =~= digits);
}

/// A best adapter is picked where any is accepted: no accepted one ranks in front of
/// the first candidate.
pub proof fn law_candidates_are_ranked(
    adapters: Seq<Adapter>,
    selector: SelectorView,
    i: int,
    j: int,
)
    requires
        0 <= i <= j < candidates(adapters, selector).len(),
    ensures
        !behind(
            adapters[candidates(adapters, selector)[i] as int],
            adapters[candidates(adapters, selector)[j] as int],
        ),
{
    lemma_ranked_order(adapters, accepted(adapters, selector, numbered(adapters.len())));
}

// ------------------------------------------------------------------- the device

/// What decides which kernels may run.
#[derive(Debug, Clone)]
pub struct DeviceInfo {
    pub adapter: Adapter,
    pub shuffle_reduction: bool,
    pub max_binding_bytes: u64,
    pub max_buffer_bytes: u64,
    pub subgroup_min: u32,
    pub subgroup_max: u32,
}

/// A subgroup's width, or the range it may have.
pub open spec fn width_text(min: u32, max: u32) -> Seq<char> {
    if min == max {
        text::decimal(min as nat)
    } else {
        text::decimal(min as nat) + ".."@ + text::decimal(max as nat)
    }
}

impl DeviceInfo {
    /// The facts of an adapter that has subgroups or not.
    pub fn of(adapter: Adapter, subgroups: bool, max_binding_bytes: u64, max_buffer_bytes: u64) -> (r:
        Self)
        ensures
            r.adapter == adapter,
            r.shuffle_reduction == (subgroups && adapter.subgroup_min == 32
                && adapter.subgroup_max == 32),
            r.max_binding_bytes == max_binding_bytes,
            r.max_buffer_bytes == max_buffer_bytes,
            r.subgroup_min == adapter.subgroup_min,
            r.subgroup_max == adapter.subgroup_max,
    {
        let subgroup_min: u32 = adapter.subgroup_min;
        let subgroup_max: u32 = adapter.subgroup_max;
        DeviceInfo {
            shuffle_reduction: shuffle_reduction_is_safe(subgroups, subgroup_min, subgroup_max),
            max_binding_bytes,
            max_buffer_bytes,
            subgroup_min,
            subgroup_max,
            adapter,
        }
    }

    /// The device in one line.
    pub open spec fn description(self) -> Seq<char> {
        let driver = if self.adapter.driver_info@.len() == 0 {
            self.adapter.driver@
        } else {
            self.adapter.driver_info@
        };
        self.adapter.backend.title() + " "@ + self.adapter.name@ + " ("@ + text::decimal(
            self.adapter.vendor as nat,
        ) + " "@ + self.adapter.device_type.kind() + ", driver "@ + driver + ") binding "@
            + text::decimal((self.max_binding_bytes / MIB) as nat) + " MiB, subgroup "@
            + width_text(self.subgroup_min, self.subgroup_max)
    }

    /// The device in one line.
    pub fn describe(&self) -> (r: String)
        ensures
            r@ == self.description(),
    {
        let mut r = String::from_str(self.adapter.backend.title_text());
        r.append(" ");
        r.append(self.adapter.name.as_str());
        r.append(" (");
        r.append(text::decimal_text(self.adapter.vendor as u64).as_str());
        r.append(" ");
        r.append(self.adapter.device_type.kind_text());
        r.append(", driver ");
        if self.adapter.driver_info.as_str().is_empty() {
            r.append(self.adapter.driver.as_str());
        } else {
            r.append(self.adapter.driver_info.as_str());
        }
        r.append(") binding ");
        r.append(text::decimal_text(self.max_binding_bytes / MIB).as_str());
        r.append(" MiB, subgroup ");
        let min = text::decimal_text(self.subgroup_min as u64);
        let ghost before = r@;
        r.append(min.as_str());
        if self.subgroup_min != self.subgroup_max {
            r.append("..");
            r.append(text::decimal_text(self.subgroup_max as u64).as_str());
            assert(r@ =~= before + width_text(self.subgroup_min, self.subgroup_max));
        }
        r
    }
}

// ------------------------------------------------------------------ buffer sizes

/// `bytes` rounded up to whole steps, at least one.
pub open spec fn stepped(bytes: int, step: int) -> int {
    if bytes <= 0 {
        step
    } else {
        (bytes + step - 1) / step * step
    }
}

/// The size of a buffer of `bytes` bytes in steps of `step`: 16 for storage and
/// uniforms, 256 where a buffer may be either, 4 for what the host reads back.
pub fn buffer_size(bytes: u64, step: u64) -> (r: u64)
    requires
        step == 4 || step == 16 || step == 256,
        bytes + step <= u64::MAX,
    ensures
        r == stepped(bytes as int, step as int),
{
    if bytes == 0 {
        return step;
    }
    if step == 4 {
        (bytes + 3) / 4 * 4
    } else if step == 16 {
        (bytes + 15) / 16 * 16
    } else {
        (bytes + 255) / 256 * 256
    }
}

} // verus!
