//! Where the time goes: device timestamps per launch, and host time per kind of work.

use vstd::prelude::*;

use crate::text;

verus! {

/// Timestamps one recorder takes at most. Launches past it run untimed.
pub const TIMING_CAPACITY: u32 = 4096;

/// One timed launch: what ran, and which timestamp was taken at its begin.
#[derive(Debug, Clone, Copy)]
pub struct TimedDispatch {
    pub label: &'static str,
    pub grid: (u32, u32, u32),
    pub index: u32,
}

/// The timed launches of one recorder.
#[derive(Debug)]
pub struct Timing {
    pub dispatches: Vec<TimedDispatch>,
}

/// How long it took from one launch's begin to the next one's: the kernel's time, and
/// the gap in front of the next.
#[derive(Debug, Clone, Copy)]
pub struct Row {
    pub label: &'static str,
    pub grid: (u32, u32, u32),
    pub ticks: u64,
}

/// What the launches of one kernel add up to.
#[derive(Debug, Clone, Copy)]
pub struct Total {
    pub label: &'static str,
    pub count: usize,
    pub sum: u128,
    pub max: u64,
}

/// `a - b`, or nothing where `b` is more.
pub open spec fn difference(a: int, b: int) -> int {
    if a >= b {
        a - b
    } else {
        0
    }
}

/// The row of the launch at `i`.
pub open spec fn row(dispatches: Seq<TimedDispatch>, ticks: Seq<u64>, i: int) -> Row {
    Row {
        label: dispatches[i].label,
        grid: dispatches[i].grid,
        ticks: difference(ticks[i + 1] as int, ticks[i] as int) as u64,
    }
}

/// Every launch that has a successor. The last one has none to be told from.
pub open spec fn rows(dispatches: Seq<TimedDispatch>, ticks: Seq<u64>) -> Seq<Row> {
    Seq::new(
        if dispatches.len() == 0 {
            0
        } else {
            (dispatches.len() - 1) as nat
        },
        |i: int| row(dispatches, ticks, i),
    )
}

impl Timing {
    /// Launches take timestamps in order, and no more than there are.
    pub open spec fn wf(&self) -> bool {
        &&& self.dispatches@.len() <= TIMING_CAPACITY
        &&& forall|i: int|
            0 <= i < self.dispatches@.len() ==> (#[trigger] self.dispatches@[i]).index == i
    }

    pub fn new() -> (r: Self)
        ensures
            r.wf(),
            r.dispatches@ == Seq::<TimedDispatch>::empty(),
    {
        Timing { dispatches: Vec::new() }
    }

    /// The timestamp a launch takes, if one is left.
    pub fn claim(&mut self, label: &'static str, grid: (u32, u32, u32)) -> (r: Option<u32>)
        requires
            old(self).wf(),
        ensures
            final(self).wf(),
            match r {
                Some(index) => {
                    &&& old(self).dispatches@.len() < TIMING_CAPACITY
                    &&& index == old(self).dispatches@.len()
                    &&& final(self).dispatches@ == old(self).dispatches@.push(
                        TimedDispatch { label, grid, index },
                    )
                },
                None => {
                    &&& old(self).dispatches@.len() == TIMING_CAPACITY
                    &&& final(self).dispatches@ == old(self).dispatches@
                },
            },
    {
        if self.dispatches.len() >= TIMING_CAPACITY as usize {
            return None;
        }
        let index: u32 = self.dispatches.len() as u32;
        self.dispatches.push(TimedDispatch { label, grid, index });
        Some(index)
    }

    /// The intervals between the launches' begins, from the timestamps read back.
    pub fn intervals(&self, ticks: &Vec<u64>) -> (r: Vec<Row>)
        requires
            self.wf(),
            self.dispatches@.len() <= ticks@.len(),
        ensures
            r@ == rows(self.dispatches@, ticks@),
    {
        let mut r: Vec<Row> = Vec::new();
        let mut i: usize = 1;
        while i < self.dispatches.len()
            invariant
                1 <= i,
                self.wf(),
                self.dispatches@.len() <= ticks@.len(),
                i <= self.dispatches@.len() || i == 1,
                r@.len() == i - 1,
                forall|j: int|
                    0 <= j < i - 1 ==> (#[trigger] r@[j]) == row(self.dispatches@, ticks@, j),
            decreases self.dispatches@.len() - i,
        {
            let d = self.dispatches[i - 1];
            let begin: u64 = ticks[d.index as usize];
            let end: u64 = ticks[self.dispatches[i].index as usize];
            let ticks: u64 = if end >= begin {
                end - begin
            } else {
                0
            };
            r.push(Row { label: d.label, grid: d.grid, ticks });
            i += 1;
        }
        assert(r@ =~= rows(self.dispatches@, ticks@));
        r
    }
}

// --------------------------------------------------------------------- summaries

/// How many rows a kernel has.
pub open spec fn count_of(rows: Seq<Row>, label: Seq<char>) -> nat
    decreases rows.len(),
{
    if rows.len() == 0 {
        0
    } else {
        count_of(rows.drop_last(), label) + if rows.last().label@ == label {
            1nat
        } else {
            0nat
        }
    }
}

/// What a kernel's rows add up to.
pub open spec fn sum_of(rows: Seq<Row>, label: Seq<char>) -> nat
    decreases rows.len(),
{
    if rows.len() == 0 {
        0
    } else {
        sum_of(rows.drop_last(), label) + if rows.last().label@ == label {
            rows.last().ticks as nat
        } else {
            0nat
        }
    }
}

/// A kernel's slowest row.
pub open spec fn max_of(rows: Seq<Row>, label: Seq<char>) -> u64
    decreases rows.len(),
{
    if rows.len() == 0 {
        0
    } else {
        let before = max_of(rows.drop_last(), label);
        if rows.last().label@ == label && rows.last().ticks > before {
            rows.last().ticks
        } else {
            before
        }
    }
}

/// The kernels, in the order of their first rows.
pub open spec fn first_seen(rows: Seq<Row>) -> Seq<Seq<char>>
    decreases rows.len(),
{
    if rows.len() == 0 {
        Seq::empty()
    } else {
        let before = first_seen(rows.drop_last());
        if before.contains(rows.last().label@) {
            before
        } else {
            before.push(rows.last().label@)
        }
    }
}

/// Whether `t` sums up the rows of the kernel `label`.
pub open spec fn sums_up(t: Total, rows: Seq<Row>, label: Seq<char>) -> bool {
    &&& t.label@ == label
    &&& t.count == count_of(rows, label)
    &&& t.sum == sum_of(rows, label)
    &&& t.max == max_of(rows, label)
}

proof fn lemma_unseen(rows: Seq<Row>, label: Seq<char>)
    requires
        !first_seen(rows).contains(label),
    ensures
        count_of(rows, label) == 0,
        sum_of(rows, label) == 0,
        max_of(rows, label) == 0,
    decreases rows.len(),
{
    if rows.len() > 0 {
        let before = first_seen(rows.drop_last());
        let last = rows.last().label@;
        if before.contains(last) {
            assert(last != label);
        } else {
            assert(before.push(last)[before.len() as int] == last);
            assert(last != label);
            assert forall|i: int| 0 <= i < before.len() implies before[i] != label by {
                assert(before.push(last)[i] == before[i]);
            }
        }
        lemma_unseen(rows.drop_last(), label);
    }
}

/// No kernel is listed twice.
proof fn lemma_seen_once(rows: Seq<Row>)
    ensures
        first_seen(rows).no_duplicates(),
    decreases rows.len(),
{
    if rows.len() > 0 {
        lemma_seen_once(rows.drop_last());
    }
}

proof fn lemma_bounds(rows: Seq<Row>, label: Seq<char>)
    ensures
        count_of(rows, label) <= rows.len(),
        sum_of(rows, label) <= rows.len() * u64::MAX,
    decreases rows.len(),
{
    if rows.len() > 0 {
        lemma_bounds(rows.drop_last(), label);
        assert(rows.len() * u64::MAX == (rows.len() - 1) * u64::MAX + u64::MAX)
            by (nonlinear_arith);
    }
}

/// Sums up the rows kernel by kernel.
pub fn totals(rows: &Vec<Row>) -> (r: Vec<Total>)
    ensures
        r@.len() == first_seen(rows@).len(),
        forall|i: int|
            0 <= i < r@.len() ==> sums_up(#[trigger] r@[i], rows@, first_seen(rows@)[i]),
{
    let mut r: Vec<Total> = Vec::new();
    let mut n: usize = 0;
    assert(rows@.take(0) =~= Seq::<Row>::empty());
    while n < rows.len()
        invariant
            n <= rows@.len(),
            r@.len() == first_seen(rows@.take(n as int)).len(),
            forall|i: int|
                0 <= i < r@.len() ==> sums_up(
                    #[trigger] r@[i],
                    rows@.take(n as int),
                    first_seen(rows@.take(n as int))[i],
                ),
        decreases rows@.len() - n,
    {
        let ghost before = rows@.take(n as int);
        let ghost after = rows@.take(n as int + 1);
        let ghost seen = first_seen(before);
        let row = rows[n];
        proof {
            assert(after.drop_last() =~= before);
            assert(after.last() == row);
            lemma_seen_once(before);
        }
        let mut at: usize = 0;
        while at < r.len() && !text::same_text(r[at].label, row.label)
            invariant
                at <= r@.len(),
                r@.len() == seen.len(),
                forall|i: int| 0 <= i < r@.len() ==> (#[trigger] r@[i]).label@ == seen[i],
                forall|i: int| 0 <= i < at ==> seen[i] != row.label@,
            decreases r@.len() - at,
        {
            at += 1;
        }
        if at < r.len() {
            let t = r[at];
            proof {
                assert(seen[at as int] == row.label@);
                assert(seen.contains(row.label@));
                lemma_bounds(after, row.label@);
                assert(after.len() * u64::MAX <= u128::MAX) by (nonlinear_arith)
                    requires
                        after.len() <= u64::MAX,
                ;
            }
            let max: u64 = if row.ticks > t.max {
                row.ticks
            } else {
                t.max
            };
            let ghost old_r = r@;
            r.set(
                at,
                Total {
                    label: t.label,
                    count: t.count + 1,
                    sum: t.sum + row.ticks as u128,
                    max,
                },
            );
            proof {
                assert forall|i: int| 0 <= i < r@.len() implies sums_up(
                    #[trigger] r@[i],
                    after,
                    seen[i],
                ) by {
                    if i != at {
                        assert(r@[i] == old_r[i]);
                        assert(seen[i] != seen[at as int]);
                    }
                }
            }
        } else {
            proof {
                assert(!seen.contains(row.label@));
                lemma_unseen(before, row.label@);
            }
            let ghost old_r = r@;
            r.push(Total { label: row.label, count: 1, sum: row.ticks as u128, max: row.ticks });
            proof {
                assert forall|i: int| 0 <= i < r@.len() implies sums_up(
                    #[trigger] r@[i],
                    after,
                    first_seen(after)[i],
                ) by {
                    if i < seen.len() {
                        assert(r@[i] == old_r[i]);
                        assert(seen[i] != row.label@);
                    }
                }
            }
        }
        n += 1;
    }
    assert(rows@.take(n as int) =~= rows@);
    r
}

// ------------------------------------------------------------------------ ranking

/// `ranked` with one row more, behind those that took as long.
pub open spec fn inserted(ranked: Seq<Row>, row: Row) -> Seq<Row>
    decreases ranked.len(),
{
    if ranked.len() == 0 || ranked.last().ticks >= row.ticks {
        ranked.push(row)
    } else {
        inserted(ranked.drop_last(), row).push(ranked.last())
    }
}

/// The rows, slowest first; rows that took as long stay in their order.
pub open spec fn ranked(rows: Seq<Row>) -> Seq<Row>
    decreases rows.len(),
{
    if rows.len() == 0 {
        Seq::empty()
    } else {
        inserted(ranked(rows.drop_last()), rows.last())
    }
}

proof fn lemma_inserted(s: Seq<Row>, row: Row, k: int)
    requires
        0 <= k <= s.len(),
        k > 0 ==> s[k - 1].ticks >= row.ticks,
        forall|i: int| k <= i < s.len() ==> (#[trigger] s[i]).ticks < row.ticks,
    ensures
        inserted(s, row) == s.insert(k, row),
    decreases s.len(),
{
    if k == s.len() {
        assert(s.insert(k, row) =~= s.push(row));
    } else {
        lemma_inserted(s.drop_last(), row, k);
        assert(s.insert(k, row) =~= s.drop_last().insert(k, row).push(s.last()));
    }
}

/// Ranking loses no row and makes none up, and the slowest come first.
pub proof fn law_ranking_orders(rows: Seq<Row>)
    ensures
        ranked(rows).to_multiset() == rows.to_multiset(),
        ranked(rows).len() == rows.len(),
        forall|i: int, j: int|
            0 <= i <= j < rows.len() ==> (#[trigger] ranked(rows)[i]).ticks >= (
            #[trigger] ranked(rows)[j]).ticks,
    decreases rows.len(),
{
    if rows.len() > 0 {
        law_ranking_orders(rows.drop_last());
        lemma_insertion_orders(ranked(rows.drop_last()), rows.last());
        vstd::seq_lib::to_multiset_build(rows.drop_last(), rows.last());
        assert(rows.drop_last().push(rows.last()) =~= rows);
    } else {
        assert(rows =~= Seq::<Row>::empty());
    }
}

proof fn lemma_insertion_orders(s: Seq<Row>, row: Row)
    requires
        forall|i: int, j: int|
            0 <= i <= j < s.len() ==> (#[trigger] s[i]).ticks >= (#[trigger] s[j]).ticks,
    ensures
        inserted(s, row).len() == s.len() + 1,
        inserted(s, row).to_multiset() == s.to_multiset().insert(row),
        forall|i: int, j: int|
            0 <= i <= j < s.len() + 1 ==> (#[trigger] inserted(s, row)[i]).ticks >= (
            #[trigger] inserted(s, row)[j]).ticks,
        forall|i: int| 0 <= i < s.len() + 1 ==> (#[trigger] inserted(s, row)[i]).ticks >= if s.len() == 0
            || s.last().ticks >= row.ticks {
            row.ticks
        } else {
            s.last().ticks
        },
    decreases s.len(),
{
    if s.len() == 0 || s.last().ticks >= row.ticks {
        vstd::seq_lib::to_multiset_build(s, row);
    } else {
        let front = s.drop_last();
        lemma_insertion_orders(front, row);
        vstd::seq_lib::to_multiset_build(front, s.last());
        vstd::seq_lib::to_multiset_build(inserted(front, row), s.last());
        assert(front.push(s.last()) =~= s);
        assert(front.to_multiset().insert(row).insert(s.last())
            =~= front.to_multiset().insert(s.last()).insert(row));
        let all = inserted(s, row);
        assert(all == inserted(front, row).push(s.last()));
        assert forall|i: int, j: int| 0 <= i <= j < s.len() + 1 implies (#[trigger] all[i]).ticks
            >= (#[trigger] all[j]).ticks by {
            if j < s.len() {
                assert(all[i] == inserted(front, row)[i]);
                assert(all[j] == inserted(front, row)[j]);
            } else if i < s.len() {
                assert(all[i] == inserted(front, row)[i]);
                if front.len() > 0 {
                    assert(s[front.len() - 1].ticks >= s[s.len() - 1].ticks);
                }
            }
        }
    }
}

/// The rows, slowest first.
pub fn rank(rows: &Vec<Row>) -> (r: Vec<Row>)
    ensures
        r@ == ranked(rows@),
{
    let mut r: Vec<Row> = Vec::new();
    let mut n: usize = 0;
    assert(rows@.take(0) =~= Seq::<Row>::empty());
    while n < rows.len()
        invariant
            n <= rows@.len(),
            r@ == ranked(rows@.take(n as int)),
        decreases rows@.len() - n,
    {
        let row = rows[n];
        let mut k: usize = r.len();
        while k > 0 && r[k - 1].ticks < row.ticks
            invariant
                k <= r@.len(),
                forall|i: int| k <= i < r@.len() ==> (#[trigger] r@[i]).ticks < row.ticks,
            decreases k,
        {
            k -= 1;
        }
        proof {
            lemma_inserted(r@, row, k as int);
            let after = rows@.take(n as int + 1);
            assert(after.drop_last() =~= rows@.take(n as int));
        }
        r.insert(k, row);
        n += 1;
    }
    assert(rows@.take(n as int) =~= rows@);
    r
}

// ---------------------------------------------------------------------- host time

/// Time spent on one kind of work, and how often.
#[derive(Debug, Clone, Copy, PartialEq, Eq, Structural)]
pub struct HostTally {
    pub nanos: u64,
    pub ops: u64,
}

/// What the host spent its time on.
#[derive(Debug, Clone, Copy, PartialEq, Eq, Structural)]
pub struct HostTiming {
    pub bind_group: HostTally,
    pub dispatch: HostTally,
    pub submit: HostTally,
    pub stage_write: HostTally,
    pub alloc: HostTally,
}

pub open spec fn nothing() -> HostTally {
    HostTally { nanos: 0, ops: 0 }
}

impl HostTally {
    /// One more piece of work; the counters wrap.
    pub open spec fn plus(self, nanos: u64) -> HostTally {
        HostTally {
            nanos: self.nanos.wrapping_add(nanos),
            ops: self.ops.wrapping_add(1),
        }
    }

    fn count(self, nanos: u64) -> (r: HostTally)
        ensures
            r == self.plus(nanos),
    {
        HostTally { nanos: self.nanos.wrapping_add(nanos), ops: self.ops.wrapping_add(1) }
    }
}

impl HostTiming {
    /// The counters after `nanos` more of the work called `slot`; a name that is none
    /// of theirs counts nowhere.
    pub open spec fn added(self, slot: Seq<char>, nanos: u64) -> HostTiming {
        if slot == "bind_group"@ {
            HostTiming { bind_group: self.bind_group.plus(nanos), ..self }
        } else if slot == "dispatch"@ {
            HostTiming { dispatch: self.dispatch.plus(nanos), ..self }
        } else if slot == "submit"@ {
            HostTiming { submit: self.submit.plus(nanos), ..self }
        } else if slot == "stage_write"@ {
            HostTiming { stage_write: self.stage_write.plus(nanos), ..self }
        } else if slot == "alloc"@ {
            HostTiming { alloc: self.alloc.plus(nanos), ..self }
        } else {
            self
        }
    }

    pub open spec fn zero() -> HostTiming {
        HostTiming {
            bind_group: nothing(),
            dispatch: nothing(),
            submit: nothing(),
            stage_write: nothing(),
            alloc: nothing(),
        }
    }

    /// No time spent yet.
    pub fn new() -> (r: Self)
        ensures
            r == HostTiming::zero(),
    {
        let none = HostTally { nanos: 0, ops: 0 };
        HostTiming { bind_group: none, dispatch: none, submit: none, stage_write: none, alloc: none }
    }
}

/// Counts `nanos` of the work called `slot`.
pub fn host_timing_add(timing: &mut HostTiming, slot: &str, nanos: u64)
    ensures
        *final(timing) == old(timing).added(slot@, nanos),
{
    if text::same_text(slot, "bind_group") {
        timing.bind_group = timing.bind_group.count(nanos);
    } else if text::same_text(slot, "dispatch") {
        timing.dispatch = timing.dispatch.count(nanos);
    } else if text::same_text(slot, "submit") {
        timing.submit = timing.submit.count(nanos);
    } else if text::same_text(slot, "stage_write") {
        timing.stage_write = timing.stage_write.count(nanos);
    } else if text::same_text(slot, "alloc") {
        timing.alloc = timing.alloc.count(nanos);
    }
}

/// The counters, which start again.
pub fn host_timing_take(timing: &mut HostTiming) -> (r: HostTiming)
    ensures
        r == *old(timing),
        *final(timing) == HostTiming::zero(),
{
    let r = *timing;
    *timing = HostTiming::new();
    r
}

} // verus!
