//! Recycling device buffers.
//!
//! An [`Arena`] decides which buffer backs a request. It knows buffers by number;
//! whoever owns the device keeps the buffers themselves, makes one when the arena
//! asks for it and destroys those the arena lets go of.
//!
//! A buffer is *live* while a tensor still views it. When the last view dies it
//! becomes *idle* and waits, by size, for the next request it fits. That is sound
//! because the queue is single and in order: a buffer is handed out again only after
//! every launch that read its old contents was recorded.
//!
//! Two kinds of buffer never become idle. One the host wrote into: a host write is
//! ordered against submissions, not against single launches, so a later write in the
//! same pass would clobber what an earlier launch has yet to read. And one below
//! [`POOL_MIN_BYTES`]: it costs less than its bookkeeping would.

use vstd::prelude::*;

use crate::error;
use crate::error::{Error, ErrorView};
use crate::gpu::recorder;
use crate::gpu::weights;

verus! {

/// Buffers below this size are not recycled.
pub const POOL_MIN_BYTES: u64 = 262144;

/// Idle buffers are shelved by size, in steps of this many bytes.
pub const CLASS_GRAIN_BYTES: u64 = 1048576;

/// An idle buffer may serve a request at most this many times smaller than itself.
pub const REUSE_SIZE_RATIO: u64 = 4;

/// A buffer that waits for a request.
#[derive(Debug, Clone, Copy, PartialEq, Eq, Structural)]
pub struct Idle {
    pub id: u64,
    pub size: u64,
}

/// A buffer that tensors view.
#[derive(Debug, Clone, Copy, PartialEq, Eq, Structural)]
pub struct Slot {
    pub id: u64,
    /// The buffer's size, which may exceed what was asked for.
    pub size: u64,
    pub host_written: bool,
    /// How many tensors view it.
    pub views: usize,
}

// --------------------------------------------------------------------- shelves

/// The shelf of a buffer of `size` bytes.
pub open spec fn shelf(size: int) -> int {
    (size + CLASS_GRAIN_BYTES - 1) / CLASS_GRAIN_BYTES as int
}

/// The shelf of a buffer of `size` bytes.
pub fn class_of(size: u64) -> (r: usize)
    requires
        shelf(size as int) <= usize::MAX,
    ensures
        r == shelf(size as int),
{
    let whole: u64 = size / CLASS_GRAIN_BYTES;
    if size % CLASS_GRAIN_BYTES == 0 {
        whole as usize
    } else {
        (whole + 1) as usize
    }
}

/// What the buffers on one shelf add up to, `f` of each.
pub open spec fn sum(shelf: Seq<Idle>, f: spec_fn(Idle) -> int) -> int
    decreases shelf.len(),
{
    if shelf.len() == 0 {
        0
    } else {
        sum(shelf.drop_last(), f) + f(shelf.last())
    }
}

/// What all the buffers add up to, `f` of each.
pub open spec fn tally(shelves: Seq<Seq<Idle>>, f: spec_fn(Idle) -> int) -> int
    decreases shelves.len(),
{
    if shelves.len() == 0 {
        0
    } else {
        tally(shelves.drop_last(), f) + sum(shelves.last(), f)
    }
}

pub open spec fn size_of() -> spec_fn(Idle) -> int {
    |b: Idle| b.size as int
}

pub open spec fn one_each() -> spec_fn(Idle) -> int {
    |b: Idle| 1int
}

/// Bytes on the shelves.
pub open spec fn bytes(shelves: Seq<Seq<Idle>>) -> int {
    tally(shelves, size_of())
}

/// Buffers on the shelves.
pub open spec fn count(shelves: Seq<Seq<Idle>>) -> int {
    tally(shelves, one_each())
}

/// Whether there is a buffer at this place.
pub open spec fn placed(shelves: Seq<Seq<Idle>>, class: int, index: int) -> bool {
    0 <= class < shelves.len() && 0 <= index < shelves[class].len()
}

/// Whether one place comes before another, or is it.
pub open spec fn no_later(class: int, index: int, class2: int, index2: int) -> bool {
    class < class2 || (class == class2 && index <= index2)
}

/// Whether the buffer at this place is the smallest of those from `low` to `high`
/// bytes, and the first such.
pub open spec fn is_least(
    shelves: Seq<Seq<Idle>>,
    low: int,
    high: int,
    class: int,
    index: int,
) -> bool {
    &&& placed(shelves, class, index)
    &&& low <= shelves[class][index].size <= high
    &&& forall|c: int, i: int|
        #![trigger shelves[c][i]]
        placed(shelves, c, i) && low <= shelves[c][i].size <= high ==> {
            &&& shelves[class][index].size <= shelves[c][i].size
            &&& shelves[class][index].size == shelves[c][i].size ==> no_later(class, index, c, i)
        }
}

/// The place of the smallest buffer from `low` to `high` bytes, the first where
/// several are that small.
pub open spec fn least(shelves: Seq<Seq<Idle>>, low: int, high: int) -> Option<(int, int)> {
    if exists|p: (int, int)| is_least(shelves, low, high, p.0, p.1) {
        Some(choose|p: (int, int)| is_least(shelves, low, high, p.0, p.1))
    } else {
        None
    }
}

/// Whether no buffer has from `low` to `high` bytes.
pub open spec fn none_between(shelves: Seq<Seq<Idle>>, low: int, high: int) -> bool {
    forall|c: int, i: int|
        #![trigger shelves[c][i]]
        placed(shelves, c, i) ==> !(low <= shelves[c][i].size <= high)
}

/// The shelves without the buffer at this place.
pub open spec fn without(shelves: Seq<Seq<Idle>>, class: int, index: int) -> Seq<Seq<Idle>> {
    shelves.update(class, shelves[class].remove(index))
}

/// At least `n` shelves.
pub open spec fn widened(shelves: Seq<Seq<Idle>>, n: int) -> Seq<Seq<Idle>> {
    if shelves.len() >= n {
        shelves
    } else {
        shelves + Seq::new((n - shelves.len()) as nat, |i: int| Seq::<Idle>::empty())
    }
}

/// The shelves with one buffer more.
pub open spec fn with(shelves: Seq<Seq<Idle>>, b: Idle) -> Seq<Seq<Idle>> {
    let class = shelf(b.size as int);
    let wide = widened(shelves, class + 1);
    wide.update(class, wide[class].push(b))
}

proof fn lemma_sum_push(s: Seq<Idle>, b: Idle, f: spec_fn(Idle) -> int)
    ensures
        sum(s.push(b), f) == sum(s, f) + f(b),
{
    assert(s.push(b).drop_last() =~= s);
}

proof fn lemma_sum_remove(s: Seq<Idle>, i: int, f: spec_fn(Idle) -> int)
    requires
        0 <= i < s.len(),
    ensures
        sum(s.remove(i), f) == sum(s, f) - f(s[i]),
    decreases s.len(),
{
    if i == s.len() - 1 {
        assert(s.remove(i) =~= s.drop_last());
    } else {
        assert(s.remove(i).drop_last() =~= s.drop_last().remove(i));
        assert(s.remove(i).last() == s.last());
        lemma_sum_remove(s.drop_last(), i, f);
    }
}

proof fn lemma_tally_update(
    shelves: Seq<Seq<Idle>>,
    class: int,
    s: Seq<Idle>,
    f: spec_fn(Idle) -> int,
)
    requires
        0 <= class < shelves.len(),
    ensures
        tally(shelves.update(class, s), f) == tally(shelves, f) - sum(shelves[class], f) + sum(
            s,
            f,
        ),
    decreases shelves.len(),
{
    let next = shelves.update(class, s);
    if class == shelves.len() - 1 {
        assert(next.drop_last() =~= shelves.drop_last());
    } else {
        assert(next.drop_last() =~= shelves.drop_last().update(class, s));
        assert(next.last() == shelves.last());
        lemma_tally_update(shelves.drop_last(), class, s, f);
    }
}

proof fn lemma_tally_widened(shelves: Seq<Seq<Idle>>, n: int, f: spec_fn(Idle) -> int)
    ensures
        tally(widened(shelves, n), f) == tally(shelves, f),
    decreases n,
{
    if shelves.len() < n {
        lemma_tally_widened(shelves, n - 1, f);
        let wide = widened(shelves, n);
        assert(wide.drop_last() =~= widened(shelves, n - 1));
        assert(wide.last() =~= Seq::<Idle>::empty());
    }
}

/// Taking a buffer off its shelf takes exactly it.
pub proof fn lemma_without(shelves: Seq<Seq<Idle>>, class: int, index: int)
    requires
        placed(shelves, class, index),
    ensures
        bytes(without(shelves, class, index)) == bytes(shelves) - shelves[class][index].size,
        count(without(shelves, class, index)) == count(shelves) - 1,
{
    let s = shelves[class].remove(index);
    lemma_sum_remove(shelves[class], index, size_of());
    lemma_sum_remove(shelves[class], index, one_each());
    lemma_tally_update(shelves, class, s, size_of());
    lemma_tally_update(shelves, class, s, one_each());
}

/// Shelving a buffer adds exactly it.
pub proof fn lemma_with(shelves: Seq<Seq<Idle>>, b: Idle)
    ensures
        bytes(with(shelves, b)) == bytes(shelves) + b.size,
        count(with(shelves, b)) == count(shelves) + 1,
{
    let class = shelf(b.size as int);
    let wide = widened(shelves, class + 1);
    lemma_tally_widened(shelves, class + 1, size_of());
    lemma_tally_widened(shelves, class + 1, one_each());
    lemma_sum_push(wide[class], b, size_of());
    lemma_sum_push(wide[class], b, one_each());
    lemma_tally_update(wide, class, wide[class].push(b), size_of());
    lemma_tally_update(wide, class, wide[class].push(b), one_each());
}

proof fn lemma_sum_bounds(s: Seq<Idle>)
    ensures
        sum(s, size_of()) >= 0,
        sum(s, one_each()) == s.len(),
        forall|i: int| 0 <= i < s.len() ==> (#[trigger] s[i]).size <= sum(s, size_of()),
    decreases s.len(),
{
    if s.len() > 0 {
        lemma_sum_bounds(s.drop_last());
        assert forall|i: int| 0 <= i < s.len() implies (#[trigger] s[i]).size <= sum(
            s,
            size_of(),
        ) by {
            if i < s.len() - 1 {
                assert(s[i] == s.drop_last()[i]);
            }
        }
    }
}

/// No buffer has more bytes than all of them, and none fewer than nothing.
pub proof fn lemma_bytes_bounds(shelves: Seq<Seq<Idle>>)
    ensures
        bytes(shelves) >= 0,
        count(shelves) >= 0,
        forall|c: int, i: int|
            #![trigger shelves[c][i]]
            placed(shelves, c, i) ==> shelves[c][i].size <= bytes(shelves) && count(shelves) >= 1,
    decreases shelves.len(),
{
    if shelves.len() > 0 {
        let front = shelves.drop_last();
        lemma_bytes_bounds(front);
        lemma_sum_bounds(shelves.last());
        assert forall|c: int, i: int|
            #![trigger shelves[c][i]]
            placed(shelves, c, i) implies shelves[c][i].size <= bytes(shelves) && count(shelves)
            >= 1 by {
            if c < shelves.len() - 1 {
                assert(placed(front, c, i));
                assert(front[c][i] == shelves[c][i]);
            } else {
                assert(shelves.last()[i] == shelves[c][i]);
            }
        }
    }
}

/// There is one smallest place at most.
proof fn lemma_least_unique(
    shelves: Seq<Seq<Idle>>,
    low: int,
    high: int,
    class: int,
    index: int,
)
    requires
        is_least(shelves, low, high, class, index),
    ensures
        least(shelves, low, high) == Some((class, index)),
{
    let p = choose|p: (int, int)| is_least(shelves, low, high, p.0, p.1);
    let here = (class, index);
    assert(is_least(shelves, low, high, here.0, here.1));
    assert(is_least(shelves, low, high, p.0, p.1));
    let a = shelves[p.0][p.1];
    let b = shelves[class][index];
    assert(a.size == b.size);
}

proof fn lemma_none_between(shelves: Seq<Seq<Idle>>, low: int, high: int)
    requires
        none_between(shelves, low, high),
    ensures
        least(shelves, low, high) is None,
{
    assert forall|p: (int, int)| !is_least(shelves, low, high, p.0, p.1) by {
        if is_least(shelves, low, high, p.0, p.1) {
            let b = shelves[p.0][p.1];
        }
    }
}

// -------------------------------------------------------------------- eviction

/// The shelves after room was made for `needed` bytes under `cap`, and the buffers
/// that left: the smallest ones, as long as they are smaller than what is coming.
pub open spec fn evicted(shelves: Seq<Seq<Idle>>, cap: int, needed: int) -> (
    Seq<Seq<Idle>>,
    Seq<u64>,
)
    decreases count(shelves),
{
    proof {
        lemma_bytes_bounds(shelves);
        let p = choose|p: (int, int)| is_least(shelves, 0, u64::MAX as int, p.0, p.1);
        if placed(shelves, p.0, p.1) {
            let b = shelves[p.0][p.1];
            lemma_without(shelves, p.0, p.1);
            lemma_bytes_bounds(without(shelves, p.0, p.1));
        }
    }
    match least(shelves, 0, u64::MAX as int) {
        Some(p) => if bytes(shelves) + needed > cap && shelves[p.0][p.1].size
            < needed {
            let rest = evicted(without(shelves, p.0, p.1), cap, needed);
            (rest.0, seq![shelves[p.0][p.1].id] + rest.1)
        } else {
            (shelves, Seq::empty())
        },
        None => (shelves, Seq::empty()),
    }
}

/// The shelves after `b` came back, and the buffers that left for good.
pub open spec fn given_back(shelves: Seq<Seq<Idle>>, cap: int, b: Idle) -> (
    Seq<Seq<Idle>>,
    Seq<u64>,
) {
    let (kept, gone) = evicted(shelves, cap, b.size as int);
    if bytes(kept) + b.size > cap {
        (kept, gone.push(b.id))
    } else {
        (with(kept, b), gone)
    }
}

// ------------------------------------------------------------------- the arena

/// Bytes that tensors view.
pub open spec fn live_bytes(slots: Seq<Slot>) -> int
    decreases slots.len(),
{
    if slots.len() == 0 {
        0
    } else {
        live_bytes(slots.drop_last()) + slots.last().size
    }
}

proof fn lemma_live_push(slots: Seq<Slot>, slot: Slot)
    ensures
        live_bytes(slots.push(slot)) == live_bytes(slots) + slot.size,
{
    assert(slots.push(slot).drop_last() =~= slots);
}

proof fn lemma_live_remove(slots: Seq<Slot>, i: int)
    requires
        0 <= i < slots.len(),
    ensures
        live_bytes(slots.remove(i)) == live_bytes(slots) - slots[i].size,
        live_bytes(slots) >= slots[i].size,
    decreases slots.len(),
{
    lemma_live_bounds(slots.drop_last());
    if i == slots.len() - 1 {
        assert(slots.remove(i) =~= slots.drop_last());
    } else {
        assert(slots.remove(i).drop_last() =~= slots.drop_last().remove(i));
        assert(slots.remove(i).last() == slots.last());
        lemma_live_remove(slots.drop_last(), i);
    }
}

proof fn lemma_live_bounds(slots: Seq<Slot>)
    ensures
        live_bytes(slots) >= 0,
    decreases slots.len(),
{
    if slots.len() > 0 {
        lemma_live_bounds(slots.drop_last());
    }
}

proof fn lemma_live_update(slots: Seq<Slot>, i: int, slot: Slot)
    requires
        0 <= i < slots.len(),
        slot.size == slots[i].size,
    ensures
        live_bytes(slots.update(i, slot)) == live_bytes(slots),
    decreases slots.len(),
{
    let next = slots.update(i, slot);
    if i == slots.len() - 1 {
        assert(next.drop_last() =~= slots.drop_last());
    } else {
        assert(next.drop_last() =~= slots.drop_last().update(i, slot));
        lemma_live_update(slots.drop_last(), i, slot);
    }
}

/// What an arena stands for: the idle buffers, the live ones, and the accounts.
#[verifier::ext_equal]
pub struct ArenaView {
    pub shelves: Seq<Seq<Idle>>,
    pub slots: Seq<Slot>,
    pub peak: int,
    pub cap: int,
    pub created: int,
    pub created_bytes: int,
    pub reused: int,
    pub next: int,
}

/// Whether buffers stand on the shelves of their sizes, none of them too small to be
/// worth it, and every buffer is known once: on one shelf or live.
pub open spec fn sound(shelves: Seq<Seq<Idle>>, slots: Seq<Slot>, next: int) -> bool {
    &&& forall|c: int, i: int|
        #![trigger shelves[c][i]]
        placed(shelves, c, i) ==> {
            &&& shelf(shelves[c][i].size as int) == c
            &&& shelves[c][i].size >= POOL_MIN_BYTES
            &&& shelves[c][i].id < next
        }
    &&& forall|c: int, i: int, c2: int, i2: int|
        #![trigger shelves[c][i], shelves[c2][i2]]
        placed(shelves, c, i) && placed(shelves, c2, i2) && shelves[c][i].id == shelves[c2][i2].id
            ==> c == c2 && i == i2
    &&& forall|i: int| 0 <= i < slots.len() ==> (#[trigger] slots[i]).id < next && slots[i].views >= 1
    &&& forall|i: int, j: int|
        0 <= i < slots.len() && 0 <= j < slots.len() && (#[trigger] slots[i]).id == (
        #[trigger] slots[j]).id ==> i == j
    &&& forall|i: int, c: int, j: int|
        #![trigger slots[i], shelves[c][j]]
        0 <= i < slots.len() && placed(shelves, c, j) ==> slots[i].id != shelves[c][j].id
}

impl ArenaView {
    /// The arena's invariant; what idles stays under the cap.
    pub open spec fn wf(self) -> bool {
        &&& sound(self.shelves, self.slots, self.next)
        &&& bytes(self.shelves) <= self.cap
    }

    /// Whether a tensor views the buffer `id`.
    pub open spec fn is_live(self, id: u64) -> bool {
        exists|i: int| 0 <= i < self.slots.len() && (#[trigger] self.slots[i]).id == id
    }

    /// Where the live buffer `id` is listed.
    pub open spec fn slot_of(self, id: u64) -> int {
        choose|i: int| 0 <= i < self.slots.len() && (#[trigger] self.slots[i]).id == id
    }

    /// Whether the buffer `id` waits on a shelf.
    pub open spec fn is_idle(self, id: u64) -> bool {
        exists|c: int, i: int|
            #![trigger self.shelves[c][i]]
            placed(self.shelves, c, i) && self.shelves[c][i].id == id
    }

    /// A buffer becomes live, with one view.
    pub open spec fn admitted(self, id: u64, size: u64) -> ArenaView {
        let live = live_bytes(self.slots) + size;
        ArenaView {
            slots: self.slots.push(Slot { id, size, host_written: false, views: 1 }),
            peak: if live > self.peak {
                live
            } else {
                self.peak
            },
            ..self
        }
    }

    /// Where the idle buffer stands that serves a request of `size` bytes: the best
    /// fit from `size` bytes up to four times that.
    pub open spec fn fit(self, size: u64) -> Option<(int, int)> {
        if size < POOL_MIN_BYTES {
            None
        } else {
            least(self.shelves, size as int, reuse_limit(size) as int)
        }
    }

    /// The idle buffer at `place` is handed out.
    pub open spec fn taken(self, place: (int, int)) -> ArenaView {
        let b = self.shelves[place.0][place.1];
        ArenaView {
            shelves: without(self.shelves, place.0, place.1),
            reused: self.reused + 1,
            ..self
        }.admitted(b.id, b.size)
    }

    /// The driver made a buffer of `size` bytes.
    pub open spec fn made(self, size: u64) -> ArenaView {
        ArenaView {
            created: self.created + 1,
            created_bytes: self.created_bytes + size,
            next: self.next + 1,
            ..self
        }.admitted(self.next as u64, size)
    }

    /// A view of the buffer `id` died, and the buffers that left with it.
    pub open spec fn released(self, id: u64) -> (ArenaView, Seq<u64>) {
        let at = self.slot_of(id);
        let slot = self.slots[at];
        if slot.views > 1 {
            let fewer = Slot { views: (slot.views - 1) as usize, ..slot };
            (ArenaView { slots: self.slots.update(at, fewer), ..self }, Seq::empty())
        } else {
            let rest = ArenaView { slots: self.slots.remove(at), ..self };
            if slot.host_written || slot.size < POOL_MIN_BYTES {
                (rest, seq![id])
            } else {
                let (shelves, gone) = given_back(
                    self.shelves,
                    self.cap,
                    Idle { id, size: slot.size },
                );
                (ArenaView { shelves, ..rest }, gone)
            }
        }
    }
}

/// The largest buffer that may serve a request of `size` bytes.
pub open spec fn reuse_limit(size: u64) -> u64 {
    if size > u64::MAX / REUSE_SIZE_RATIO {
        u64::MAX
    } else {
        (size * REUSE_SIZE_RATIO) as u64
    }
}

/// Where a place without one buffer was before.
spec fn back(class: int, index: int, c: int, i: int) -> int {
    if c == class && i >= index {
        i + 1
    } else {
        i
    }
}

proof fn lemma_back(shelves: Seq<Seq<Idle>>, class: int, index: int)
    requires
        placed(shelves, class, index),
    ensures
        forall|c: int, i: int|
            #![trigger without(shelves, class, index)[c][i]]
            placed(without(shelves, class, index), c, i) ==> {
                let was = back(class, index, c, i);
                &&& placed(shelves, c, was)
                &&& without(shelves, class, index)[c][i] == shelves[c][was]
                &&& !(c == class && was == index)
            },
{
}

proof fn lemma_sound_without(
    shelves: Seq<Seq<Idle>>,
    slots: Seq<Slot>,
    next: int,
    class: int,
    index: int,
)
    requires
        sound(shelves, slots, next),
        placed(shelves, class, index),
    ensures
        sound(without(shelves, class, index), slots, next),
        forall|c: int, i: int|
            #![trigger without(shelves, class, index)[c][i]]
            placed(without(shelves, class, index), c, i) ==> without(shelves, class, index)[c][i].id
                != shelves[class][index].id,
{
    let w = without(shelves, class, index);
    lemma_back(shelves, class, index);
    assert forall|c: int, i: int, c2: int, i2: int|
        #![trigger w[c][i], w[c2][i2]]
        placed(w, c, i) && placed(w, c2, i2) && w[c][i].id == w[c2][i2].id implies c == c2 && i
        == i2 by {
        let a = back(class, index, c, i);
        let b = back(class, index, c2, i2);
        assert(shelves[c][a].id == shelves[c2][b].id);
    }
    assert forall|c: int, i: int|
        #![trigger w[c][i]]
        placed(w, c, i) implies w[c][i].id != shelves[class][index].id by {
        let a = back(class, index, c, i);
        assert(shelves[c][a] == w[c][i]);
    }
    assert forall|i: int, c: int, j: int|
        #![trigger slots[i], w[c][j]]
        0 <= i < slots.len() && placed(w, c, j) implies slots[i].id != w[c][j].id by {
        let b = back(class, index, c, j);
        assert(shelves[c][b] == w[c][j]);
    }
    assert forall|c: int, i: int|
        #![trigger w[c][i]]
        placed(w, c, i) implies shelf(w[c][i].size as int) == c && w[c][i].size >= POOL_MIN_BYTES
        && w[c][i].id < next by {
        let b = back(class, index, c, i);
        assert(shelves[c][b] == w[c][i]);
    }
}

/// Making room keeps the shelves sound and only takes from them.
proof fn lemma_evicted(
    shelves: Seq<Seq<Idle>>,
    slots: Seq<Slot>,
    next: int,
    cap: int,
    needed: int,
    id: u64,
)
    requires
        sound(shelves, slots, next),
        forall|c: int, i: int|
            #![trigger shelves[c][i]]
            placed(shelves, c, i) ==> shelves[c][i].id != id,
    ensures
        ({
            let kept = evicted(shelves, cap, needed).0;
            &&& sound(kept, slots, next)
            &&& bytes(kept) <= bytes(shelves)
            &&& forall|c: int, i: int|
                #![trigger kept[c][i]]
                placed(kept, c, i) ==> kept[c][i].id != id
        }),
    decreases count(shelves),
{
    lemma_bytes_bounds(shelves);
    match least(shelves, 0, u64::MAX as int) {
        Some(p) => {
            if bytes(shelves) + needed > cap && shelves[p.0][p.1].size < needed {
                let rest = without(shelves, p.0, p.1);
                lemma_without(shelves, p.0, p.1);
                lemma_bytes_bounds(rest);
                lemma_sound_without(shelves, slots, next, p.0, p.1);
                lemma_back(shelves, p.0, p.1);
                assert forall|c: int, i: int|
                    #![trigger rest[c][i]]
                    placed(rest, c, i) implies rest[c][i].id != id by {
                    let was = back(p.0, p.1, c, i);
                    assert(shelves[c][was] == rest[c][i]);
                }
                lemma_evicted(rest, slots, next, cap, needed, id);
            }
        },
        None => {},
    }
}

proof fn lemma_sound_with(shelves: Seq<Seq<Idle>>, slots: Seq<Slot>, next: int, b: Idle)
    requires
        sound(shelves, slots, next),
        b.id < next,
        b.size >= POOL_MIN_BYTES,
        forall|c: int, i: int|
            #![trigger shelves[c][i]]
            placed(shelves, c, i) ==> shelves[c][i].id != b.id,
        forall|i: int| 0 <= i < slots.len() ==> (#[trigger] slots[i]).id != b.id,
    ensures
        sound(with(shelves, b), slots, next),
{
    let class = shelf(b.size as int);
    let w = with(shelves, b);
    let old_len = if class < shelves.len() {
        shelves[class].len() as int
    } else {
        0
    };
    assert forall|c: int, i: int|
        #![trigger w[c][i]]
        placed(w, c, i) implies (c == class && i == old_len && w[c][i] == b) || (placed(
        shelves,
        c,
        i,
    ) && w[c][i] == shelves[c][i]) by {}
    assert forall|c: int, i: int, c2: int, i2: int|
        #![trigger w[c][i], w[c2][i2]]
        placed(w, c, i) && placed(w, c2, i2) && w[c][i].id == w[c2][i2].id implies c == c2 && i
        == i2 by {
        if placed(shelves, c, i) && placed(shelves, c2, i2) {
            let x = shelves[c][i];
            let y = shelves[c2][i2];
        }
    }
    assert forall|i: int, c: int, j: int|
        #![trigger slots[i], w[c][j]]
        0 <= i < slots.len() && placed(w, c, j) implies slots[i].id != w[c][j].id by {
        if placed(shelves, c, j) {
            let y = shelves[c][j];
        }
    }
}

/// What comes back is given room, or leaves.
proof fn lemma_given_back(shelves: Seq<Seq<Idle>>, slots: Seq<Slot>, next: int, cap: int, b: Idle)
    requires
        sound(shelves, slots, next),
        bytes(shelves) <= cap,
        b.id < next,
        b.size >= POOL_MIN_BYTES,
        forall|c: int, i: int|
            #![trigger shelves[c][i]]
            placed(shelves, c, i) ==> shelves[c][i].id != b.id,
        forall|i: int| 0 <= i < slots.len() ==> (#[trigger] slots[i]).id != b.id,
    ensures
        sound(given_back(shelves, cap, b).0, slots, next),
        bytes(given_back(shelves, cap, b).0) <= cap,
{
    lemma_evicted(shelves, slots, next, cap, b.size as int, b.id);
    let kept = evicted(shelves, cap, b.size as int).0;
    if bytes(kept) + b.size <= cap {
        lemma_with(kept, b);
        lemma_sound_with(kept, slots, next, b);
    }
}

proof fn lemma_slot_of(v: ArenaView, i: int)
    requires
        v.wf(),
        0 <= i < v.slots.len(),
    ensures
        v.is_live(v.slots[i].id),
        v.slot_of(v.slots[i].id) == i,
{
}

proof fn lemma_sound_slots_fewer(v: ArenaView, at: int)
    requires
        v.wf(),
        0 <= at < v.slots.len(),
    ensures
        sound(v.shelves, v.slots.remove(at), v.next),
        forall|i: int|
            0 <= i < v.slots.len() - 1 ==> (#[trigger] v.slots.remove(at)[i]).id != v.slots[at].id,
{
    let rest = v.slots.remove(at);
    assert forall|i: int| 0 <= i < rest.len() implies rest[i] == v.slots[
        if i < at { i } else { i + 1 }
    ] by {}
    assert forall|i: int, j: int|
        0 <= i < rest.len() && 0 <= j < rest.len() && (#[trigger] rest[i]).id == (
        #[trigger] rest[j]).id implies i == j by {
        let a = v.slots[if i < at { i } else { i + 1 }];
        let b = v.slots[if j < at { j } else { j + 1 }];
    }
    assert forall|i: int, c: int, j: int|
        #![trigger rest[i], v.shelves[c][j]]
        0 <= i < rest.len() && placed(v.shelves, c, j) implies rest[i].id != v.shelves[c][j].id by {
        let a = v.slots[if i < at { i } else { i + 1 }];
    }
}

/// A dying view keeps the arena sound.
pub proof fn law_releasing_keeps_the_arena(v: ArenaView, id: u64)
    requires
        v.wf(),
        v.is_live(id),
    ensures
        v.released(id).0.wf(),
{
    let at = v.slot_of(id);
    let slot = v.slots[at];
    if slot.views > 1 {
        let fewer = Slot { views: (slot.views - 1) as usize, ..slot };
        let next = v.slots.update(at, fewer);
        assert forall|i: int| 0 <= i < next.len() implies (#[trigger] next[i]).id == v.slots[i].id
            && next[i].views >= 1 by {}
        assert forall|i: int, c: int, j: int|
            #![trigger next[i], v.shelves[c][j]]
            0 <= i < next.len() && placed(v.shelves, c, j) implies next[i].id != v.shelves[c][j].id by {
            let s = v.slots[i];
        }
        assert(sound(v.shelves, next, v.next));
    } else {
        lemma_sound_slots_fewer(v, at);
        if !(slot.host_written || slot.size < POOL_MIN_BYTES) {
            let b = Idle { id, size: slot.size };
            assert forall|c: int, i: int|
                #![trigger v.shelves[c][i]]
                placed(v.shelves, c, i) implies v.shelves[c][i].id != b.id by {
                assert(v.slots[at].id != v.shelves[c][i].id);
            }
            lemma_given_back(v.shelves, v.slots.remove(at), v.next, v.cap, b);
        }
    }
}

/// Handing out an idle buffer keeps the arena sound; no tensor viewed that buffer, and
/// it no longer waits.
pub proof fn law_reuse_keeps_the_arena(v: ArenaView, size: u64)
    requires
        v.wf(),
        v.fit(size) is Some,
    ensures
        ({
            let (c, i) = v.fit(size)->0;
            let b = v.shelves[c][i];
            let after = v.taken((c, i));
            &&& placed(v.shelves, c, i)
            &&& after.wf()
            &&& !v.is_live(b.id)
            &&& after.is_live(b.id)
            &&& !after.is_idle(b.id)
            &&& size <= b.size <= reuse_limit(size)
        }),
{
    let (c, i) = v.fit(size)->0;
    let b = v.shelves[c][i];
    let after = v.taken((c, i));
    lemma_without(v.shelves, c, i);
    lemma_sound_without(v.shelves, v.slots, v.next, c, i);
    assert(after.slots.last().id == b.id);
    assert forall|k: int| 0 <= k < v.slots.len() implies (#[trigger] v.slots[k]).id != b.id by {}
    let w = without(v.shelves, c, i);
    lemma_sound_admitted(w, v.slots, v.next, Slot { id: b.id, size: b.size, host_written: false, views: 1 });
    assert(after.is_live(b.id)) by {
        assert(after.slots[after.slots.len() - 1].id == b.id);
    }
}

proof fn lemma_sound_admitted(shelves: Seq<Seq<Idle>>, slots: Seq<Slot>, next: int, slot: Slot)
    requires
        sound(shelves, slots, next),
        slot.id < next,
        slot.views >= 1,
        forall|i: int| 0 <= i < slots.len() ==> (#[trigger] slots[i]).id != slot.id,
        forall|c: int, i: int|
            #![trigger shelves[c][i]]
            placed(shelves, c, i) ==> shelves[c][i].id != slot.id,
    ensures
        sound(shelves, slots.push(slot), next),
{
    let more = slots.push(slot);
    assert forall|i: int, c: int, j: int|
        #![trigger more[i], shelves[c][j]]
        0 <= i < more.len() && placed(shelves, c, j) implies more[i].id != shelves[c][j].id by {
        if i < slots.len() {
            let s = slots[i];
        }
    }
    assert forall|i: int, j: int|
        0 <= i < more.len() && 0 <= j < more.len() && (#[trigger] more[i]).id == (
        #[trigger] more[j]).id implies i == j by {
        if i < slots.len() {
            let s = slots[i];
        }
        if j < slots.len() {
            let s = slots[j];
        }
    }
    assert forall|i: int| 0 <= i < more.len() implies (#[trigger] more[i]).id < next
        && more[i].views >= 1 by {
        if i < slots.len() {
            let s = slots[i];
        }
    }
}

/// A buffer the driver made keeps the arena sound.
pub proof fn law_making_keeps_the_arena(v: ArenaView, size: u64)
    requires
        v.wf(),
        0 <= v.next <= u64::MAX,
    ensures
        v.made(size).wf(),
        !v.is_live(v.next as u64),
        !v.is_idle(v.next as u64),
{
    assert(sound(v.shelves, v.slots, v.next + 1));
    lemma_sound_admitted(
        v.shelves,
        v.slots,
        v.next + 1,
        Slot { id: v.next as u64, size, host_written: false, views: 1 },
    );
}

/// A buffer the host wrote into, or one below the minimum, never waits for a request:
/// it leaves with its last view.
pub proof fn law_unrecyclable_buffers_leave(v: ArenaView, id: u64)
    requires
        v.wf(),
        v.is_live(id),
        v.slots[v.slot_of(id)].views == 1,
        v.slots[v.slot_of(id)].host_written || v.slots[v.slot_of(id)].size < POOL_MIN_BYTES,
    ensures
        v.released(id).0.shelves == v.shelves,
        v.released(id).1 == seq![id],
        !v.released(id).0.is_idle(id),
        !v.released(id).0.is_live(id),
{
    lemma_sound_slots_fewer(v, v.slot_of(id));
    let at = v.slot_of(id);
    assert forall|c: int, i: int|
        #![trigger v.shelves[c][i]]
        placed(v.shelves, c, i) implies v.shelves[c][i].id != id by {
        assert(v.slots[at].id != v.shelves[c][i].id);
    }
}

/// While another tensor views a buffer, a dying view neither frees it nor makes it
/// wait.
pub proof fn law_a_live_view_keeps_the_buffer(v: ArenaView, id: u64)
    requires
        v.wf(),
        v.is_live(id),
        v.slots[v.slot_of(id)].views > 1,
    ensures
        v.released(id).0.is_live(id),
        !v.released(id).0.is_idle(id),
        v.released(id).1 == Seq::<u64>::empty(),
        live_bytes(v.released(id).0.slots) == live_bytes(v.slots),
{
    let at = v.slot_of(id);
    let after = v.released(id).0;
    lemma_live_update(v.slots, at, after.slots[at]);
    assert(after.slots[at].id == id);
    law_releasing_keeps_the_arena(v, id);
    assert forall|c: int, i: int|
        #![trigger after.shelves[c][i]]
        placed(after.shelves, c, i) implies after.shelves[c][i].id != id by {
        assert(after.slots[at].id != after.shelves[c][i].id);
    }
}

/// The live set falls as tensors die.
pub proof fn law_the_live_set_falls(v: ArenaView, id: u64)
    requires
        v.wf(),
        v.is_live(id),
        v.slots[v.slot_of(id)].views == 1,
    ensures
        v.released(id).0.slots.len() == v.slots.len() - 1,
        live_bytes(v.released(id).0.slots) == live_bytes(v.slots) - v.slots[v.slot_of(id)].size,
        !v.released(id).0.is_live(id),
{
    lemma_live_remove(v.slots, v.slot_of(id));
    lemma_sound_slots_fewer(v, v.slot_of(id));
}

/// When a recyclable buffer's last view dies and the shelves have room for it, the next
/// request of its size is served by an idle buffer of exactly that size.
pub proof fn law_a_dropped_buffer_is_handed_out_again(v: ArenaView, id: u64)
    requires
        v.wf(),
        v.is_live(id),
        v.slots[v.slot_of(id)].views == 1,
        !v.slots[v.slot_of(id)].host_written,
        v.slots[v.slot_of(id)].size >= POOL_MIN_BYTES,
        bytes(v.shelves) + v.slots[v.slot_of(id)].size <= v.cap,
    ensures
        ({
            let size = v.slots[v.slot_of(id)].size;
            let after = v.released(id).0;
            &&& after.is_idle(id)
            &&& after.fit(size) matches Some((c, i)) && after.shelves[c][i].size == size
        }),
{
    let size = v.slots[v.slot_of(id)].size;
    let b = Idle { id, size };
    let after = v.released(id).0;
    assert(evicted(v.shelves, v.cap, size as int).0 == v.shelves);
    assert(after.shelves == with(v.shelves, b));
    let class = shelf(size as int);
    let last = after.shelves[class].len() - 1;
    assert(after.shelves[class][last] == b);
    assert(placed(after.shelves, class, last));
    lemma_fit_exists(after.shelves, size as int, reuse_limit(size) as int, class, last);
}

/// Where a buffer fits, there is a smallest one that does.
proof fn lemma_fit_exists(shelves: Seq<Seq<Idle>>, low: int, high: int, class: int, index: int)
    requires
        placed(shelves, class, index),
        low <= shelves[class][index].size <= high,
    ensures
        least(shelves, low, high) matches Some((c, i)) && is_least(shelves, low, high, c, i)
            && shelves[c][i].size <= shelves[class][index].size,
    decreases shelves[class][index].size, class, index,
{
    if is_least(shelves, low, high, class, index) {
        lemma_least_unique(shelves, low, high, class, index);
    } else {
        let (c, i) = choose|c: int, i: int|
            #![trigger shelves[c][i]]
            placed(shelves, c, i) && low <= shelves[c][i].size <= high && !(
            shelves[class][index].size <= shelves[c][i].size && (shelves[class][index].size
                == shelves[c][i].size ==> no_later(class, index, c, i)));
        lemma_fit_exists(shelves, low, high, c, i);
    }
}

/// What an arena answers to a request.
#[derive(Debug, Clone, Copy, PartialEq, Eq, Structural)]
pub enum Grant {
    /// The idle buffer `id`, of `size` bytes.
    Reuse { id: u64, size: u64 },
    /// A buffer of `size` bytes, which the driver has yet to make.
    Create { size: u64 },
}

/// Decides which buffer backs a request.
#[derive(Debug)]
pub struct Arena {
    shelves: Vec<Vec<Idle>>,
    slots: Vec<Slot>,
    live_bytes: u64,
    peak_live_bytes: u64,
    pooled_bytes: u64,
    cap: u64,
    created: usize,
    created_bytes: u64,
    reused: usize,
    next: u64,
}

/// The shelves of a list of shelves.
pub open spec fn shelves_view(list: Seq<Vec<Idle>>) -> Seq<Seq<Idle>> {
    Seq::new(list.len(), |i: int| list[i]@)
}

impl View for Arena {
    type V = ArenaView;

    closed spec fn view(&self) -> ArenaView {
        ArenaView {
            shelves: shelves_view(self.shelves@),
            slots: self.slots@,
            peak: self.peak_live_bytes as int,
            cap: self.cap as int,
            created: self.created as int,
            created_bytes: self.created_bytes as int,
            reused: self.reused as int,
            next: self.next as int,
        }
    }
}

impl Arena {
    /// The arena's invariant, and accounts that agree with what they count.
    pub closed spec fn wf(&self) -> bool {
        &&& self@.wf()
        &&& self.live_bytes == live_bytes(self@.slots)
        &&& self.pooled_bytes == bytes(self@.shelves)
    }

    /// What an arena stands for is sound: see [`ArenaView::wf`].
    pub proof fn law_arenas_are_sound(&self)
        requires
            self.wf(),
        ensures
            self@.wf(),
            0 <= live_bytes(self@.slots) <= u64::MAX,
            0 <= self@.next <= u64::MAX,
    {
        lemma_live_bounds(self@.slots);
    }

    /// An arena whose idle buffers together hold at most `budget` bytes.
    pub fn new(budget: u64) -> (r: Self)
        ensures
            r.wf(),
            r@ == (ArenaView {
                shelves: Seq::empty(),
                slots: Seq::empty(),
                peak: 0,
                cap: budget as int,
                created: 0,
                created_bytes: 0,
                reused: 0,
                next: 0,
            }),
    {
        let r = Arena {
            shelves: Vec::new(),
            slots: Vec::new(),
            live_bytes: 0,
            peak_live_bytes: 0,
            pooled_bytes: 0,
            cap: budget,
            created: 0,
            created_bytes: 0,
            reused: 0,
            next: 0,
        };
        assert(r@.shelves =~= Seq::<Seq<Idle>>::empty());
        r
    }

    /// The most live bytes since the last reset.
    pub fn peak(&self) -> (r: u64)
        ensures
            r == self@.peak,
    {
        self.peak_live_bytes
    }

    /// Bytes tensors view now.
    pub fn bytes_resident(&self) -> (r: u64)
        requires
            self.wf(),
        ensures
            r == live_bytes(self@.slots),
    {
        self.live_bytes
    }

    /// Buffers tensors view now.
    pub fn allocations(&self) -> (r: usize)
        ensures
            r == self@.slots.len(),
    {
        self.slots.len()
    }

    /// Bytes that idle.
    pub fn pooled_bytes(&self) -> (r: u64)
        requires
            self.wf(),
        ensures
            r == bytes(self@.shelves),
            r <= self@.cap,
    {
        self.pooled_bytes
    }

    /// Buffers the driver made since the last reset.
    pub fn created(&self) -> (r: usize)
        ensures
            r == self@.created,
    {
        self.created
    }

    /// What those hold.
    pub fn created_bytes(&self) -> (r: u64)
        ensures
            r == self@.created_bytes,
    {
        self.created_bytes
    }

    /// Requests that an idle buffer served since the last reset.
    pub fn reused(&self) -> (r: usize)
        ensures
            r == self@.reused,
    {
        self.reused
    }

    /// How many buffers idle.
    pub fn idle_buffers(&self) -> (r: usize)
        requires
            self.wf(),
            count(self@.shelves) <= usize::MAX,
        ensures
            r == count(self@.shelves),
    {
        let mut total: usize = 0;
        let mut c: usize = 0;
        while c < self.shelves.len()
            invariant
                c <= self.shelves@.len(),
                self@.shelves == shelves_view(self.shelves@),
                count(self@.shelves) <= usize::MAX,
                total == count(self@.shelves.take(c as int)),
            decreases self.shelves@.len() - c,
        {
            proof {
                let next = self@.shelves.take(c as int + 1);
                assert(next.drop_last() =~= self@.shelves.take(c as int));
                assert(next.last() == self.shelves@[c as int]@);
                lemma_sum_bounds(next.last());
                lemma_count_prefix(self@.shelves, c as int + 1);
            }
            total += self.shelves[c].len();
            c += 1;
        }
        assert(self@.shelves.take(c as int) =~= self@.shelves);
        total
    }

    /// The place of the smallest buffer from `low` to `high` bytes on the shelves from
    /// `start` on.
    fn find(&self, start: usize, low: u64, high: u64) -> (r: Option<(usize, usize)>)
        requires
            forall|c: int, i: int|
                #![trigger self@.shelves[c][i]]
                placed(self@.shelves, c, i) && c < start ==> !(low <= self@.shelves[c][i].size
                    <= high),
        ensures
            match r {
                Some((c, i)) => {
                    &&& is_least(self@.shelves, low as int, high as int, c as int, i as int)
                    &&& least(self@.shelves, low as int, high as int) == Some(
                        (c as int, i as int),
                    )
                },
                None => least(self@.shelves, low as int, high as int) is None,
            },
    {
        let ghost shelves = self@.shelves;
        let mut best: Option<(usize, usize)> = None;
        let mut best_size: u64 = 0;
        let mut class: usize = start;
        while class < self.shelves.len()
            invariant
                shelves == shelves_view(self.shelves@),
                start <= class,
                best_so_far(shelves, low as int, high as int, best, best_size, class as int, 0),
            decreases self.shelves@.len() - class,
        {
            let mut index: usize = 0;
            while index < self.shelves[class].len()
                invariant
                    shelves == shelves_view(self.shelves@),
                    class < self.shelves@.len(),
                    index <= self.shelves@[class as int]@.len(),
                    best_so_far(
                        shelves,
                        low as int,
                        high as int,
                        best,
                        best_size,
                        class as int,
                        index as int,
                    ),
                decreases self.shelves@[class as int]@.len() - index,
            {
                let size: u64 = self.shelves[class][index].size;
                assert(shelves[class as int][index as int].size == size);
                let better = match best {
                    None => true,
                    Some(_) => size < best_size,
                };
                if size >= low && size <= high && better {
                    best = Some((class, index));
                    best_size = size;
                }
                index += 1;
            }
            class += 1;
        }
        proof {
            match best {
                Some((c, i)) => {
                    lemma_least_unique(shelves, low as int, high as int, c as int, i as int);
                },
                None => {
                    lemma_none_between(shelves, low as int, high as int);
                },
            }
        }
        best
    }

    /// Takes the buffer at a place off its shelf.
    fn unshelve(&mut self, class: usize, index: usize) -> (r: Idle)
        requires
            old(self).wf(),
            placed(old(self)@.shelves, class as int, index as int),
        ensures
            final(self).wf(),
            r == old(self)@.shelves[class as int][index as int],
            final(self)@ == (ArenaView {
                shelves: without(old(self)@.shelves, class as int, index as int),
                ..old(self)@
            }),
    {
        let ghost before = self@;
        let b = self.shelves[class].remove(index);
        proof {
            assert(shelves_view(self.shelves@) =~= without(
                before.shelves,
                class as int,
                index as int,
            ));
            lemma_without(before.shelves, class as int, index as int);
            lemma_bytes_bounds(before.shelves);
            lemma_bytes_bounds(self@.shelves);
            lemma_sound_without(
                before.shelves,
                before.slots,
                before.next,
                class as int,
                index as int,
            );
        }
        self.pooled_bytes = self.pooled_bytes - b.size;
        b
    }

    /// A buffer becomes live.
    fn enter(&mut self, id: u64, size: u64)
        requires
            old(self)@.wf(),
            old(self).live_bytes == live_bytes(old(self)@.slots),
            old(self).pooled_bytes == bytes(old(self)@.shelves),
            live_bytes(old(self)@.slots) + size <= u64::MAX,
            old(self)@.admitted(id, size).wf(),
        ensures
            final(self).wf(),
            final(self)@ == old(self)@.admitted(id, size),
    {
        proof {
            lemma_live_push(self.slots@, Slot { id, size, host_written: false, views: 1 });
        }
        self.slots.push(Slot { id, size, host_written: false, views: 1 });
        self.live_bytes = self.live_bytes + size;
        if self.live_bytes > self.peak_live_bytes {
            self.peak_live_bytes = self.live_bytes;
        }
    }

    /// Asks for a buffer of `bytes` bytes, at least 4 and rounded up to 256: an idle one
    /// where one fits, else one the driver has to make. `limit` is the largest buffer
    /// the device gives, and `label` what the buffer is for.
    pub fn allocate(&mut self, bytes: u64, limit: u64, label: &str) -> (r: Result<Grant, Error>)
        requires
            old(self).wf(),
            recorder::roundable(bytes as nat),
            shelf(recorder::aligned(bytes as nat) as int) <= usize::MAX,
            live_bytes(old(self)@.slots) + self::bytes(old(self)@.shelves) <= u64::MAX,
            old(self)@.reused < usize::MAX,
        ensures
            final(self).wf(),
            ({
                let size = recorder::aligned(bytes as nat) as u64;
                if size > limit {
                    &&& error::told(r) == Err::<Grant, ErrorView>(
                        Error::GpuOf(recorder::limit_fault(size, limit, label@)),
                    )
                    &&& final(self)@ == old(self)@
                } else {
                    match old(self)@.fit(size) {
                        Some(place) => {
                            let b = old(self)@.shelves[place.0][place.1];
                            &&& r == Ok::<Grant, Error>(Grant::Reuse { id: b.id, size: b.size })
                            &&& final(self)@ == old(self)@.taken(place)
                        },
                        None => {
                            &&& r == Ok::<Grant, Error>(Grant::Create { size })
                            &&& final(self)@ == old(self)@
                        },
                    }
                }
            }),
    {
        let size: u64 = recorder::aligned_of(bytes);
        if size > limit {
            return Err(Error::GpuOf(recorder::limit_fault_of(size, limit, label)));
        }
        if size < POOL_MIN_BYTES {
            return Ok(Grant::Create { size });
        }
        let high: u64 = if size > u64::MAX / REUSE_SIZE_RATIO {
            u64::MAX
        } else {
            size * REUSE_SIZE_RATIO
        };
        let start: usize = class_of(size);
        proof {
            assert forall|c: int, i: int|
                #![trigger self@.shelves[c][i]]
                placed(self@.shelves, c, i) && c < start implies !(size
                <= self@.shelves[c][i].size <= high) by {
                lemma_shelves_ascend(self@.shelves[c][i].size as int, size as int);
            }
        }
        match self.find(start, size, high) {
            Some((class, index)) => {
                proof {
                    law_reuse_keeps_the_arena(self@, size);
                    lemma_bytes_bounds(self@.shelves);
                    lemma_live_bounds(self@.slots);
                }
                let b = self.unshelve(class, index);
                self.reused = self.reused + 1;
                self.enter(b.id, b.size);
                Ok(Grant::Reuse { id: b.id, size: b.size })
            },
            None => Ok(Grant::Create { size }),
        }
    }

    /// Asks for a buffer that never was another's, for what the host writes while
    /// launches are pending.
    pub fn alloc_dedicated(&self, bytes: u64, limit: u64, label: &str) -> (r: Result<Grant, Error>)
        requires
            recorder::roundable(bytes as nat),
        ensures
            ({
                let size = recorder::aligned(bytes as nat) as u64;
                error::told(r) == if size > limit {
                    Err::<Grant, ErrorView>(
                        Error::GpuOf(recorder::limit_fault(size, limit, label@)),
                    )
                } else {
                    Ok(Grant::Create { size })
                }
            }),
    {
        let size: u64 = recorder::aligned_of(bytes);
        if size > limit {
            return Err(Error::GpuOf(recorder::limit_fault_of(size, limit, label)));
        }
        Ok(Grant::Create { size })
    }

    /// The driver made a buffer of `size` bytes; the number it goes by.
    pub fn created_buffer(&mut self, size: u64) -> (r: u64)
        requires
            old(self).wf(),
            live_bytes(old(self)@.slots) + size <= u64::MAX,
            old(self)@.created < usize::MAX,
            old(self)@.created_bytes + size <= u64::MAX,
            old(self)@.next < u64::MAX,
        ensures
            final(self).wf(),
            r == old(self)@.next,
            final(self)@ == old(self)@.made(size),
            !old(self)@.is_live(r),
            !old(self)@.is_idle(r),
    {
        proof {
            law_making_keeps_the_arena(self@, size);
            assert(sound(self@.shelves, self@.slots, self@.next + 1));
        }
        let id: u64 = self.next;
        self.next = self.next + 1;
        self.created = self.created + 1;
        self.created_bytes = self.created_bytes + size;
        self.enter(id, size);
        id
    }

    fn position(&self, id: u64) -> (r: usize)
        requires
            self.wf(),
            self@.is_live(id),
        ensures
            r < self@.slots.len(),
            self@.slots[r as int].id == id,
            r == self@.slot_of(id),
    {
        let have: usize = self.slots.len();
        let mut i: usize = 0;
        while self.slots[i].id != id
            invariant
                i < self.slots@.len(),
                have == self.slots@.len(),
                self@.is_live(id),
                self@.slots == self.slots@,
                forall|j: int| 0 <= j < i ==> (#[trigger] self.slots@[j]).id != id,
            decreases self.slots@.len() - i,
        {
            proof {
                let at = self@.slot_of(id);
                assert(self.slots@[at].id == id);
                assert(at > i) by {
                    assert(self.slots@[i as int].id != id);
                }
            }
            i += 1;
        }
        proof {
            lemma_slot_of(self@, i as int);
        }
        i
    }

    /// Whether a tensor views the buffer `id`.
    pub fn is_live(&self, id: u64) -> (r: bool)
        ensures
            r == self@.is_live(id),
    {
        let mut i: usize = 0;
        while i < self.slots.len()
            invariant
                i <= self.slots@.len(),
                self@.slots == self.slots@,
                forall|j: int| 0 <= j < i ==> (#[trigger] self.slots@[j]).id != id,
            decreases self.slots@.len() - i,
        {
            if self.slots[i].id == id {
                assert(self@.slots[i as int].id == id);
                return true;
            }
            i += 1;
        }
        false
    }

    /// One more tensor views the buffer `id`.
    pub fn share(&mut self, id: u64)
        requires
            old(self).wf(),
            old(self)@.is_live(id),
            old(self)@.slots[old(self)@.slot_of(id)].views < usize::MAX,
        ensures
            final(self).wf(),
            final(self)@ == (ArenaView {
                slots: old(self)@.slots.update(
                    old(self)@.slot_of(id),
                    Slot {
                        views: (old(self)@.slots[old(self)@.slot_of(id)].views + 1) as usize,
                        ..old(self)@.slots[old(self)@.slot_of(id)]
                    },
                ),
                ..old(self)@
            }),
    {
        let at: usize = self.position(id);
        let slot = self.slots[at];
        let more = Slot { views: slot.views + 1, ..slot };
        self.restate(at, more);
    }

    /// The host writes into the buffer `id`.
    pub fn mark_host_written(&mut self, id: u64)
        requires
            old(self).wf(),
            old(self)@.is_live(id),
        ensures
            final(self).wf(),
            final(self)@ == (ArenaView {
                slots: old(self)@.slots.update(
                    old(self)@.slot_of(id),
                    Slot { host_written: true, ..old(self)@.slots[old(self)@.slot_of(id)] },
                ),
                ..old(self)@
            }),
    {
        let at: usize = self.position(id);
        let slot = self.slots[at];
        self.restate(at, Slot { host_written: true, ..slot });
    }

    /// The host zeroes a tensor of `len` elements in the buffer `id`; the words it
    /// writes, which land before anything that is submitted later.
    pub fn clear(&mut self, id: u64, len: usize) -> (r: Vec<u32>)
        requires
            old(self).wf(),
            old(self)@.is_live(id),
        ensures
            final(self).wf(),
            final(self)@ == (ArenaView {
                slots: old(self)@.slots.update(
                    old(self)@.slot_of(id),
                    Slot { host_written: true, ..old(self)@.slots[old(self)@.slot_of(id)] },
                ),
                ..old(self)@
            }),
            r@ == Seq::new(len as nat, |i: int| 0u32),
    {
        self.mark_host_written(id);
        weights::repeated(0, len)
    }

    fn restate(&mut self, at: usize, slot: Slot)
        requires
            old(self).wf(),
            at < old(self)@.slots.len(),
            slot.id == old(self)@.slots[at as int].id,
            slot.size == old(self)@.slots[at as int].size,
            slot.views >= 1,
        ensures
            final(self).wf(),
            final(self)@ == (ArenaView {
                slots: old(self)@.slots.update(at as int, slot),
                ..old(self)@
            }),
    {
        let ghost before = self@;
        proof {
            lemma_live_update(self@.slots, at as int, slot);
        }
        self.slots.set(at, slot);
        proof {
            let next = self@.slots;
            assert forall|i: int| 0 <= i < next.len() implies (#[trigger] next[i]).id
                == before.slots[i].id && next[i].views >= 1 by {}
            assert forall|i: int, c: int, j: int|
                #![trigger next[i], before.shelves[c][j]]
                0 <= i < next.len() && placed(before.shelves, c, j) implies next[i].id
                != before.shelves[c][j].id by {
                let s = before.slots[i];
            }
        }
    }

    /// Makes room for `needed` bytes; the buffers that leave.
    fn evict_smaller_to_fit(&mut self, needed: u64) -> (r: Vec<u64>)
        requires
            old(self).wf(),
            old(self)@.cap + needed <= u64::MAX,
        ensures
            final(self).wf(),
            final(self)@ == (ArenaView {
                shelves: evicted(old(self)@.shelves, old(self)@.cap, needed as int).0,
                ..old(self)@
            }),
            r@ == evicted(old(self)@.shelves, old(self)@.cap, needed as int).1,
    {
        let ghost goal = evicted(self@.shelves, self@.cap, needed as int);
        let mut gone: Vec<u64> = Vec::new();
        loop
            invariant
                self.wf(),
                self@ == (ArenaView { shelves: self@.shelves, ..old(self)@ }),
                self@.cap + needed <= u64::MAX,
                goal.0 == evicted(self@.shelves, self@.cap, needed as int).0,
                goal.1 == gone@ + evicted(self@.shelves, self@.cap, needed as int).1,
            ensures
                self.wf(),
                self@ == (ArenaView { shelves: goal.0, ..old(self)@ }),
                gone@ == goal.1,
            decreases count(self@.shelves),
        {
            proof {
                lemma_bytes_bounds(self@.shelves);
            }
            if self.pooled_bytes + needed <= self.cap {
                assert(gone@ =~= goal.1);
                break;
            }
            match self.find(0, 0, u64::MAX) {
                Some((class, index)) => {
                    if self.shelves[class][index].size >= needed {
                        assert(gone@ =~= goal.1);
                        break;
                    }
                    proof {
                        lemma_without(self@.shelves, class as int, index as int);
                    }
                    let ghost before = self@.shelves;
                    let b = self.unshelve(class, index);
                    gone.push(b.id);
                    assert(goal.1 =~= gone@ + evicted(self@.shelves, self@.cap, needed as int).1);
                    proof {
                        lemma_bytes_bounds(self@.shelves);
                    }
                },
                None => {
                    assert(gone@ =~= goal.1);
                    break;
                },
            }
        }
        gone
    }

    /// Puts a buffer on its shelf.
    fn put(&mut self, b: Idle)
        requires
            old(self).wf(),
            shelf(b.size as int) < usize::MAX,
            self::bytes(old(self)@.shelves) + b.size <= old(self)@.cap,
            sound(with(old(self)@.shelves, b), old(self)@.slots, old(self)@.next),
        ensures
            final(self).wf(),
            final(self)@ == (ArenaView { shelves: with(old(self)@.shelves, b), ..old(self)@ }),
    {
        let ghost before = self@;
        let class: usize = class_of(b.size);
        while self.shelves.len() <= class
            invariant
                class == shelf(b.size as int),
                class < usize::MAX,
                shelves_view(self.shelves@) == widened(before.shelves, self.shelves@.len() as int),
                before.shelves.len() <= self.shelves@.len(),
                self.shelves@.len() <= class + 1 || self.shelves@.len() == before.shelves.len(),
                self@ == (ArenaView { shelves: self@.shelves, ..before }),
                self.live_bytes == old(self).live_bytes,
                self.pooled_bytes == old(self).pooled_bytes,
            decreases class + 1 - self.shelves@.len(),
        {
            let ghost earlier = shelves_view(self.shelves@);
            self.shelves.push(Vec::new());
            proof {
                let later = shelves_view(self.shelves@);
                assert(later.last() =~= Seq::<Idle>::empty());
                assert(later.drop_last() =~= earlier);
                assert forall|i: int| 0 <= i < later.len() implies later[i] == widened(
                    before.shelves,
                    self.shelves@.len() as int,
                )[i] by {
                    if i < earlier.len() {
                        assert(later[i] == earlier[i]);
                    }
                }
                assert(later =~= widened(before.shelves, self.shelves@.len() as int));
            }
        }
        assert(shelves_view(self.shelves@) =~= widened(before.shelves, class as int + 1));
        self.shelves[class].push(b);
        proof {
            assert(shelves_view(self.shelves@) =~= with(before.shelves, b));
            lemma_with(before.shelves, b);
        }
        self.pooled_bytes = self.pooled_bytes + b.size;
    }

    /// A buffer comes back; the buffers that leave for good.
    fn give_back(&mut self, b: Idle) -> (r: Vec<u64>)
        requires
            old(self).wf(),
            old(self)@.cap + b.size <= u64::MAX,
            b.size >= POOL_MIN_BYTES,
            b.id < old(self)@.next,
            shelf(b.size as int) < usize::MAX,
            !old(self)@.is_idle(b.id),
            !old(self)@.is_live(b.id),
        ensures
            final(self).wf(),
            final(self)@ == (ArenaView {
                shelves: given_back(old(self)@.shelves, old(self)@.cap, b).0,
                ..old(self)@
            }),
            r@ == given_back(old(self)@.shelves, old(self)@.cap, b).1,
    {
        proof {
            lemma_evicted(
                self@.shelves,
                self@.slots,
                self@.next,
                self@.cap,
                b.size as int,
                b.id,
            );
        }
        let mut gone = self.evict_smaller_to_fit(b.size);
        proof {
            lemma_bytes_bounds(self@.shelves);
        }
        if self.pooled_bytes + b.size > self.cap {
            gone.push(b.id);
        } else {
            proof {
                lemma_sound_with(self@.shelves, self@.slots, self@.next, b);
            }
            self.put(b);
        }
        gone
    }

    /// A view of the buffer `id` dies. With the last one the buffer goes idle, or leaves;
    /// the result is the buffers that left, for the driver to destroy.
    pub fn release(&mut self, id: u64) -> (r: Vec<u64>)
        requires
            old(self).wf(),
            old(self)@.is_live(id),
            old(self)@.cap + old(self)@.slots[old(self)@.slot_of(id)].size <= u64::MAX,
            shelf(old(self)@.slots[old(self)@.slot_of(id)].size as int) < usize::MAX,
        ensures
            final(self).wf(),
            final(self)@ == old(self)@.released(id).0,
            r@ == old(self)@.released(id).1,
    {
        let at: usize = self.position(id);
        let slot = self.slots[at];
        if slot.views > 1 {
            self.restate(at, Slot { views: slot.views - 1, ..slot });
            return Vec::new();
        }
        let ghost before = self@;
        proof {
            lemma_live_remove(before.slots, at as int);
            lemma_sound_slots_fewer(before, at as int);
            lemma_live_bounds(before.slots.remove(at as int));
        }
        let _ = self.slots.remove(at);
        self.live_bytes = self.live_bytes - slot.size;
        if slot.host_written || slot.size < POOL_MIN_BYTES {
            let gone: Vec<u64> = vec![id];
            assert(gone@ =~= seq![id]);
            return gone;
        }
        proof {
            assert forall|c: int, i: int|
                #![trigger self@.shelves[c][i]]
                placed(self@.shelves, c, i) implies self@.shelves[c][i].id != id by {
                assert(before.slots[at as int].id != before.shelves[c][i].id);
            }
            assert(before.slots[at as int].id < before.next);
        }
        self.give_back(Idle { id, size: slot.size })
    }

    /// Starts a new round. What idles stays; the counters start again.
    pub fn reset(&mut self)
        requires
            old(self).wf(),
        ensures
            final(self).wf(),
            final(self)@ == (ArenaView {
                peak: 0,
                created: 0,
                created_bytes: 0,
                reused: 0,
                ..old(self)@
            }),
    {
        self.peak_live_bytes = 0;
        self.created = 0;
        self.created_bytes = 0;
        self.reused = 0;
    }
}

/// What a search has found before a place.
spec fn best_so_far(
    shelves: Seq<Seq<Idle>>,
    low: int,
    high: int,
    best: Option<(usize, usize)>,
    best_size: u64,
    class: int,
    index: int,
) -> bool {
    match best {
        Some((c, i)) => {
            &&& placed(shelves, c as int, i as int)
            &&& best_size == shelves[c as int][i as int].size
            &&& low <= best_size <= high
            &&& (c < class || (c == class && i < index))
            &&& forall|c2: int, i2: int|
                #![trigger shelves[c2][i2]]
                placed(shelves, c2, i2) && (c2 < class || (c2 == class && i2 < index)) && low
                    <= shelves[c2][i2].size <= high ==> {
                    &&& best_size <= shelves[c2][i2].size
                    &&& best_size == shelves[c2][i2].size ==> no_later(
                        c as int,
                        i as int,
                        c2,
                        i2,
                    )
                }
        },
        None => forall|c2: int, i2: int|
            #![trigger shelves[c2][i2]]
            placed(shelves, c2, i2) && (c2 < class || (c2 == class && i2 < index)) ==> !(low
                <= shelves[c2][i2].size <= high),
    }
}

/// Larger buffers stand on later shelves.
proof fn lemma_shelves_ascend(a: int, b: int)
    requires
        0 <= a,
        0 <= b,
        shelf(a) < shelf(b),
    ensures
        a < b,
{
}

proof fn lemma_count_prefix(shelves: Seq<Seq<Idle>>, n: int)
    requires
        0 <= n <= shelves.len(),
    ensures
        0 <= count(shelves.take(n)) <= count(shelves),
    decreases shelves.len(),
{
    lemma_bytes_bounds(shelves.take(n));
    if n < shelves.len() {
        lemma_count_prefix(shelves.drop_last(), n);
        assert(shelves.drop_last().take(n) =~= shelves.take(n));
        lemma_sum_bounds(shelves.last());
    } else {
        assert(shelves.take(n) =~= shelves);
    }
}

} // verus!
