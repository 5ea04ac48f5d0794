//! What summing up, ranking and tallying times comes to.

use vstd::prelude::*;

use crate::gpu::timing;
use crate::gpu::timing::{HostTiming, Row};

verus! {

// ----------------------------------------------------------------------- summaries

proof fn lemma_ends(a: Seq<Row>, b: Seq<Row>)
    requires
        b.len() > 0,
    ensures
        (a + b).drop_last() == a + b.drop_last(),
        (a + b).last() == b.last(),
{
    assert((a + b).drop_last() =~= a + b.drop_last());
}

/// What the rows of a kernel come to is what the rows of two parts come to together, and
/// one row counts once, with its ticks, for its own kernel and for no other.
pub proof fn law_totals_of_parts_come_together(a: Seq<Row>, b: Seq<Row>, row: Row, label: Seq<char>)
    ensures
        timing::count_of(a + b, label) == timing::count_of(a, label) + timing::count_of(b, label),
        timing::sum_of(a + b, label) == timing::sum_of(a, label) + timing::sum_of(b, label),
        timing::count_of(seq![row], label) == (if row.label@ == label {
            1nat
        } else {
            0
        }),
        timing::sum_of(seq![row], label) == (if row.label@ == label {
            row.ticks as nat
        } else {
            0
        }),
    decreases b.len(),
{
    assert(seq![row].drop_last() =~= Seq::<Row>::empty());
    assert(seq![row].last() == row);
    assert(timing::count_of(Seq::<Row>::empty(), label) == 0);
    assert(timing::sum_of(Seq::<Row>::empty(), label) == 0);
    if b.len() == 0 {
        assert(a + b =~= a);
    } else {
        lemma_ends(a, b);
        law_totals_of_parts_come_together(a, b.drop_last(), row, label);
    }
}

/// The slowest row of a kernel is at least as slow as each of them, and is one of them,
/// where there is one that took any time.
pub proof fn law_the_slowest_is_one_of_the_rows(rows: Seq<Row>, label: Seq<char>)
    ensures
        forall|i: int|
            0 <= i < rows.len() && (#[trigger] rows[i]).label@ == label ==> rows[i].ticks
                <= timing::max_of(rows, label),
        timing::max_of(rows, label) > 0 ==> exists|i: int|
            0 <= i < rows.len() && (#[trigger] rows[i]).label@ == label && rows[i].ticks
                == timing::max_of(rows, label),
    decreases rows.len(),
{
    if rows.len() > 0 {
        let front = rows.drop_last();
        law_the_slowest_is_one_of_the_rows(front, label);
        assert forall|i: int|
            0 <= i < rows.len() && (#[trigger] rows[i]).label@ == label implies rows[i].ticks
            <= timing::max_of(rows, label) by {
            if i < front.len() {
                assert(front[i] == rows[i]);
            }
        }
        let most = timing::max_of(rows, label);
        if most > 0 {
            if rows.last().label@ == label && rows.last().ticks > timing::max_of(front, label) {
                assert(rows[rows.len() - 1].ticks == most);
            } else {
                let i = choose|i: int|
                    0 <= i < front.len() && (#[trigger] front[i]).label@ == label && front[i].ticks
                        == most;
                assert(rows[i] == front[i]);
            }
        }
    }
}

/// Whether one of the first `n` rows is one of the kernel `label`.
pub open spec fn comes(rows: Seq<Row>, n: int, label: Seq<char>) -> bool {
    exists|i: int| 0 <= i < n && i < rows.len() && (#[trigger] rows[i]).label@ == label
}

/// Whether a row of the kernel at `p` stands in front of every row of the kernel at `q`.
pub open spec fn precedes(rows: Seq<Row>, seen: Seq<Seq<char>>, p: int, q: int) -> bool {
    forall|j: int|
        0 <= j < rows.len() && (#[trigger] rows[j]).label@ == seen[q] ==> comes(rows, j, seen[p])
}

/// Kernels that have a row are listed, and no others, and none twice.
pub proof fn law_kernels_are_listed_once(rows: Seq<Row>, label: Seq<char>)
    ensures
        timing::first_seen(rows).no_duplicates(),
        timing::first_seen(rows).contains(label) <==> comes(rows, rows.len() as int, label),
    decreases rows.len(),
{
    if rows.len() > 0 {
        let front = rows.drop_last();
        let had = timing::first_seen(front);
        let seen = timing::first_seen(rows);
        let last = rows.last().label@;
        law_kernels_are_listed_once(front, label);
        law_kernels_are_listed_once(front, last);
        if had.contains(label) {
            let p = choose|p: int| 0 <= p < had.len() && had[p] == label;
            assert(seen[p] == label);
            let i = choose|i: int|
                0 <= i < front.len() && i < front.len() && (#[trigger] front[i]).label@ == label;
            assert(rows[i].label@ == label);
        } else if label == last {
            assert(seen[had.len() as int] == label);
            assert(rows[rows.len() - 1].label@ == label);
        } else {
            if seen.contains(label) {
                let p = choose|p: int| 0 <= p < seen.len() && seen[p] == label;
                if p < had.len() {
                    assert(had[p] == label);
                }
            }
            if comes(rows, rows.len() as int, label) {
                let i = choose|i: int|
                    0 <= i < rows.len() && i < rows.len() && (#[trigger] rows[i]).label@ == label;
                assert(front[i].label@ == label);
            }
        }
    } else if timing::first_seen(rows).contains(label) {
        assert(timing::first_seen(rows).len() == 0);
    }
}

/// A kernel is listed in front of another where its first row stands in front of the
/// other's.
pub proof fn law_kernels_are_listed_as_they_come(rows: Seq<Row>, p: int, q: int)
    requires
        0 <= p < q < timing::first_seen(rows).len(),
    ensures
        precedes(rows, timing::first_seen(rows), p, q),
    decreases rows.len(),
{
    let front = rows.drop_last();
    let had = timing::first_seen(front);
    let seen = timing::first_seen(rows);
    let last = rows.last().label@;
    assert(seen[p] == had[p]);
    law_kernels_are_listed_once(front, had[p]);
    assert(had.contains(had[p]));
    let first = choose|i: int|
        0 <= i < front.len() && i < front.len() && (#[trigger] front[i]).label@ == had[p];
    assert(rows[first].label@ == seen[p]);
    if q < had.len() {
        law_kernels_are_listed_as_they_come(front, p, q);
    }
    assert forall|j: int| 0 <= j < rows.len() && (#[trigger] rows[j]).label@
        == seen[q] implies comes(rows, j, seen[p]) by {
        if j < front.len() {
            assert(front[j] == rows[j]);
            if q < had.len() {
                assert(seen[q] == had[q]);
                assert(comes(front, j, had[p]));
                let i = choose|i: int|
                    0 <= i < j && i < front.len() && (#[trigger] front[i]).label@ == had[p];
                assert(rows[i].label@ == seen[p]);
            } else {
                law_kernels_are_listed_once(front, last);
                assert(comes(front, front.len() as int, last));
            }
        } else {
            assert(rows[first].label@ == seen[p]);
        }
    }
}

// ------------------------------------------------------------------------- ranking

/// The rows that took `ticks`, in order.
pub open spec fn equals(rows: Seq<Row>, ticks: u64) -> Seq<Row>
    decreases rows.len(),
{
    if rows.len() == 0 {
        Seq::empty()
    } else if rows.last().ticks == ticks {
        equals(rows.drop_last(), ticks).push(rows.last())
    } else {
        equals(rows.drop_last(), ticks)
    }
}

proof fn lemma_insertion_is_stable(s: Seq<Row>, row: Row, ticks: u64)
    requires
        forall|i: int, j: int|
            0 <= i <= j < s.len() ==> (#[trigger] s[i]).ticks >= (#[trigger] s[j]).ticks,
    ensures
        equals(timing::inserted(s, row), ticks) == equals(s.push(row), ticks),
    decreases s.len(),
{
    assert(s.push(row).drop_last() =~= s);
    if s.len() == 0 || s.last().ticks >= row.ticks {
    } else {
        let front = s.drop_last();
        lemma_insertion_is_stable(front, row, ticks);
        let most = timing::inserted(front, row);
        let all = timing::inserted(s, row);
        assert(all == most.push(s.last()));
        assert(all.drop_last() =~= most);
        assert(all.last() == s.last());
        assert(front.push(row).drop_last() =~= front);
        assert(front.push(row).last() == row);
        assert(s.push(row).last() == row);
        assert(equals(s.push(row), ticks) == if row.ticks == ticks {
            equals(s, ticks).push(row)
        } else {
            equals(s, ticks)
        });
        assert(equals(s, ticks) == if s.last().ticks == ticks {
            equals(front, ticks).push(s.last())
        } else {
            equals(front, ticks)
        });
        assert(equals(front.push(row), ticks) == if row.ticks == ticks {
            equals(front, ticks).push(row)
        } else {
            equals(front, ticks)
        });
        assert(equals(all, ticks) == if s.last().ticks == ticks {
            equals(most, ticks).push(s.last())
        } else {
            equals(most, ticks)
        });
    }
}

/// Rows that took as long as each other keep their order.
pub proof fn law_ranking_is_stable(rows: Seq<Row>, ticks: u64)
    ensures
        equals(timing::ranked(rows), ticks) == equals(rows, ticks),
    decreases rows.len(),
{
    if rows.len() > 0 {
        let front = rows.drop_last();
        law_ranking_is_stable(front, ticks);
        timing::law_ranking_orders(front);
        lemma_insertion_is_stable(timing::ranked(front), rows.last(), ticks);
        let ranked = timing::ranked(front);
        assert(ranked.push(rows.last()).drop_last() =~= ranked);
    }
}

// ------------------------------------------------------------------------- tallies

/// Work of one kind is counted for that kind alone, and work of no known kind nowhere.
pub proof fn law_work_counts_for_its_kind(h: HostTiming, slot: Seq<char>, nanos: u64)
    ensures
        h.added("bind_group"@, nanos) == (HostTiming {
            bind_group: h.bind_group.plus(nanos),
            ..h
        }),
        h.added("dispatch"@, nanos) == (HostTiming { dispatch: h.dispatch.plus(nanos), ..h }),
        h.added("submit"@, nanos) == (HostTiming { submit: h.submit.plus(nanos), ..h }),
        h.added("stage_write"@, nanos) == (HostTiming {
            stage_write: h.stage_write.plus(nanos),
            ..h
        }),
        h.added("alloc"@, nanos) == (HostTiming { alloc: h.alloc.plus(nanos), ..h }),
        slot != "bind_group"@ && slot != "dispatch"@ && slot != "submit"@ && slot
            != "stage_write"@ && slot != "alloc"@ ==> h.added(slot, nanos) == h,
        h.submit.nanos + nanos <= u64::MAX ==> h.submit.plus(nanos).nanos == h.submit.nanos + nanos,
        h.submit.ops < u64::MAX ==> h.submit.plus(nanos).ops == h.submit.ops + 1,
{
    reveal_strlit("bind_group");
    reveal_strlit("dispatch");
    reveal_strlit("submit");
    reveal_strlit("stage_write");
    reveal_strlit("alloc");
    assert("bind_group"@.len() == 10);
    assert("dispatch"@.len() == 8);
    assert("submit"@.len() == 6);
    assert("stage_write"@.len() == 11);
    assert("alloc"@.len() == 5);
}

} // verus!
