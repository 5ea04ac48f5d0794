//! How the texts of two products compare.
//!
//! A text is masked by dropping what stands between the brackets of each read of
//! `B`. Masking goes through a text once, so it can be followed piece by piece.

use vstd::prelude::*;
use vstd::string::*;

use crate::gpu::gemm_source;
use crate::gpu::gemm_source::{GemmForm, SlotCopy};
use crate::gpu::shaders;
use crate::gpu::wgsl;
use crate::text;

verus! {

// -------------------------------------------------------------------- masking

/// Where masking stands in a text.
pub enum Mask {
    /// Outside a read of `B`.
    Outside,
    /// Behind a `B`.
    Named,
    /// Between the brackets of a read.
    Inside,
}

/// Where masking stands after one more character.
pub open spec fn next(q: Mask, c: char) -> Mask {
    match q {
        Mask::Inside => if c == ']' {
            Mask::Outside
        } else {
            Mask::Inside
        },
        _ => if c == 'B' {
            Mask::Named
        } else if q is Named && c == '[' {
            Mask::Inside
        } else {
            Mask::Outside
        },
    }
}

/// What masking leaves of one character.
pub open spec fn left(q: Mask, c: char) -> Seq<char> {
    if q is Inside && c != ']' {
        Seq::empty()
    } else {
        seq![c]
    }
}

/// Where masking stands after `t`, and what it leaves of it.
pub open spec fn pass_over(q: Mask, t: Seq<char>) -> (Mask, Seq<char>)
    decreases t.len(),
{
    if t.len() == 0 {
        (q, Seq::empty())
    } else {
        let (before, out) = pass_over(q, t.drop_last());
        (next(before, t.last()), out + left(before, t.last()))
    }
}

/// A text with every index of a read of `B` dropped.
pub open spec fn masked(t: Seq<char>) -> Seq<char> {
    pass_over(Mask::Outside, t).1
}

/// Whether two pieces of a text cannot be told apart once it is masked, wherever they
/// stand.
pub open spec fn alike(s: Seq<char>, t: Seq<char>) -> bool {
    forall|q: Mask| #[trigger] pass_over(q, s) == pass_over(q, t)
}

proof fn lemma_pass_over_both(q: Mask, s: Seq<char>, t: Seq<char>)
    ensures
        pass_over(q, s + t).0 == pass_over(pass_over(q, s).0, t).0,
        pass_over(q, s + t).1 == pass_over(q, s).1 + pass_over(pass_over(q, s).0, t).1,
    decreases t.len(),
{
    if t.len() == 0 {
        assert(s + t =~= s);
    } else {
        assert((s + t).drop_last() =~= s + t.drop_last());
        lemma_pass_over_both(q, s, t.drop_last());
        assert(pass_over(q, s + t).1 =~= pass_over(q, s).1 + pass_over(
            pass_over(q, s).0,
            t,
        ).1);
    }
}

proof fn lemma_alike_both(s1: Seq<char>, t1: Seq<char>, s2: Seq<char>, t2: Seq<char>)
    requires
        alike(s1, t1),
        alike(s2, t2),
    ensures
        alike(s1 + s2, t1 + t2),
{
    assert forall|q: Mask| #[trigger] pass_over(q, s1 + s2) == pass_over(q, t1 + t2) by {
        lemma_pass_over_both(q, s1, s2);
        lemma_pass_over_both(q, t1, t2);
        let r = pass_over(q, s1).0;
        assert(pass_over(q, s1) == pass_over(q, t1));
        assert(pass_over(r, s2) == pass_over(r, t2));
    }
}

/// An index is dropped whole.
proof fn lemma_inside(t: Seq<char>)
    requires
        forall|i: int| 0 <= i < t.len() ==> #[trigger] t[i] != ']',
    ensures
        pass_over(Mask::Inside, t) == (Mask::Inside, Seq::<char>::empty()),
    decreases t.len(),
{
    if t.len() > 0 {
        assert forall|i: int| 0 <= i < t.drop_last().len() implies #[trigger] t.drop_last()[i]
            != ']' by {
            assert(t.drop_last()[i] == t[i]);
        }
        lemma_inside(t.drop_last());
        assert(t.last() == t[t.len() - 1]);
    }
}

proof fn lemma_alike_reads(x: Seq<char>, y: Seq<char>)
    requires
        forall|i: int| 0 <= i < x.len() ==> #[trigger] x[i] != ']',
        forall|i: int| 0 <= i < y.len() ==> #[trigger] y[i] != ']',
    ensures
        alike("B["@ + x + "]"@, "B["@ + y + "]"@),
{
    let open = "B["@;
    let close = "]"@;
    reveal_strlit("B[");
    reveal_strlit("]");
    assert forall|q: Mask| #[trigger]
        pass_over(q, open + x + close) == pass_over(q, open + y + close) by {
        let r = pass_over(q, open);
        reveal_with_fuel(pass_over, 3);
        assert(open.drop_last() =~= seq!['B']);
        assert(seq!['B'].drop_last() =~= Seq::<char>::empty());
        assert(r.0 is Inside);
        lemma_pass_over_both(q, open, x);
        lemma_pass_over_both(q, open, y);
        lemma_inside(x);
        lemma_inside(y);
        lemma_pass_over_both(q, open + x, close);
        lemma_pass_over_both(q, open + y, close);
    }
}

// ------------------------------------------------------------- texts in pieces

/// Whether two lists of bindings bind the same names to texts that are alike.
spec fn bound_alike(g: text::Bindings, h: text::Bindings) -> bool {
    &&& g.len() == h.len()
    &&& forall|i: int|
        0 <= i < g.len() ==> (#[trigger] g[i]).0 == h[i].0 && alike(g[i].1, h[i].1)
}

proof fn lemma_bound_alike(g: text::Bindings, h: text::Bindings, name: Seq<char>)
    requires
        bound_alike(g, h),
    ensures
        match (text::bound(g, name), text::bound(h, name)) {
            (Some(a), Some(b)) => alike(a, b),
            (None, None) => true,
            _ => false,
        },
    decreases g.len(),
{
    if g.len() > 0 {
        assert(g[0].0 == h[0].0 && alike(g[0].1, h[0].1));
        if g[0].0 != name {
            let (rest, other) = (g.drop_first(), h.drop_first());
            assert forall|i: int| 0 <= i < rest.len() implies (#[trigger] rest[i]).0
                == other[i].0 && alike(rest[i].1, other[i].1) by {
                assert(rest[i] == g[i + 1] && other[i] == h[i + 1]);
            }
            lemma_bound_alike(rest, other, name);
        }
    }
}

proof fn lemma_alike_filled_from(t: Seq<char>, i: int, g: text::Bindings, h: text::Bindings)
    requires
        bound_alike(g, h),
        0 <= i,
    ensures
        alike(text::filled_from(t, i, g), text::filled_from(t, i, h)),
    decreases t.len() - i,
{
    if i < t.len() {
        text::lemma_close_at(t, i);
        let close = text::close_at(t, i);
        if text::opens_at(t, i) && close < t.len() {
            lemma_bound_alike(g, h, t.subrange(i + 2, close));
            lemma_alike_filled_from(t, close + 1, g, h);
            let whole = t.subrange(i, close + 1);
            let (a, b) = (
                match text::bound(g, t.subrange(i + 2, close)) {
                    Some(value) => value,
                    None => whole,
                },
                match text::bound(h, t.subrange(i + 2, close)) {
                    Some(value) => value,
                    None => whole,
                },
            );
            lemma_alike_both(
                a,
                b,
                text::filled_from(t, close + 1, g),
                text::filled_from(t, close + 1, h),
            );
        } else {
            lemma_alike_filled_from(t, i + 1, g, h);
            lemma_alike_both(
                seq![t[i]],
                seq![t[i]],
                text::filled_from(t, i + 1, g),
                text::filled_from(t, i + 1, h),
            );
        }
    }
}

proof fn lemma_alike_filled(t: Seq<char>, g: text::Bindings, h: text::Bindings)
    requires
        bound_alike(g, h),
    ensures
        alike(text::filled(t, g), text::filled(t, h)),
{
    lemma_alike_filled_from(t, 0, g, h);
}

proof fn lemma_alike_repeated(n: nat, f: spec_fn(int) -> Seq<char>, g: spec_fn(int) -> Seq<char>)
    requires
        forall|i: int| 0 <= i < n ==> alike(#[trigger] f(i), g(i)),
    ensures
        alike(text::repeated(n, f), text::repeated(n, g)),
    decreases n,
{
    if n > 0 {
        lemma_alike_repeated((n - 1) as nat, f, g);
        assert(alike(f(n - 1), g(n - 1)));
        lemma_alike_both(
            text::repeated((n - 1) as nat, f),
            text::repeated((n - 1) as nat, g),
            f(n - 1),
            g(n - 1),
        );
    }
}

proof fn lemma_alike_joined(a: Seq<Seq<char>>, b: Seq<Seq<char>>, sep: Seq<char>)
    requires
        a.len() == b.len(),
        forall|i: int| 0 <= i < a.len() ==> alike(#[trigger] a[i], b[i]),
    ensures
        alike(text::joined(a, sep), text::joined(b, sep)),
    decreases a.len(),
{
    if a.len() == 1 {
        assert(alike(a[0], b[0]));
    } else if a.len() > 1 {
        let (c, d) = (a.drop_last(), b.drop_last());
        assert forall|i: int| 0 <= i < c.len() implies alike(#[trigger] c[i], d[i]) by {
            assert(c[i] == a[i] && d[i] == b[i]);
        }
        lemma_alike_joined(c, d, sep);
        assert(alike(a[a.len() - 1], b[a.len() - 1]));
        lemma_alike_both(text::joined(c, sep), text::joined(d, sep), sep, sep);
        lemma_alike_both(
            text::joined(c, sep) + sep,
            text::joined(d, sep) + sep,
            a.last(),
            b.last(),
        );
    }
}

/// Filling a text without closing brackets by texts without any gives one without any.
proof fn lemma_unclosed_from(t: Seq<char>, i: int, holes: text::Bindings)
    requires
        0 <= i,
        forall|k: int| 0 <= k < t.len() ==> #[trigger] t[k] != ']',
        forall|j: int, k: int|
            0 <= j < holes.len() && 0 <= k < holes[j].1.len() ==> #[trigger] holes[j].1[k] != ']',
    ensures
        forall|k: int|
            0 <= k < text::filled_from(t, i, holes).len() ==> #[trigger] text::filled_from(
                t,
                i,
                holes,
            )[k] != ']',
    decreases t.len() - i,
{
    if i < t.len() {
        text::lemma_close_at(t, i);
        let close = text::close_at(t, i);
        let all = text::filled_from(t, i, holes);
        if text::opens_at(t, i) && close < t.len() {
            lemma_unclosed_from(t, close + 1, holes);
            let name = t.subrange(i + 2, close);
            let rest = text::filled_from(t, close + 1, holes);
            let front = match text::bound(holes, name) {
                Some(value) => value,
                None => t.subrange(i, close + 1),
            };
            lemma_bound_is_one(holes, name);
            assert forall|k: int| 0 <= k < all.len() implies #[trigger] all[k] != ']' by {
                if k < front.len() {
                    assert(all[k] == front[k]);
                    if text::bound(holes, name) is None {
                        assert(front[k] == t[i + k]);
                    }
                } else {
                    assert(all[k] == rest[k - front.len()]);
                }
            }
        } else {
            lemma_unclosed_from(t, i + 1, holes);
            let rest = text::filled_from(t, i + 1, holes);
            assert forall|k: int| 0 <= k < all.len() implies #[trigger] all[k] != ']' by {
                if k > 0 {
                    assert(all[k] == rest[k - 1]);
                }
            }
        }
    }
}

proof fn lemma_bound_is_one(holes: text::Bindings, name: Seq<char>)
    ensures
        text::bound(holes, name) matches Some(value) ==> exists|j: int|
            0 <= j < holes.len() && (#[trigger] holes[j]).1 == value,
    decreases holes.len(),
{
    if holes.len() > 0 {
        if holes[0].0 == name {
            assert(holes[0].1 == text::bound(holes, name).unwrap());
        } else {
            let rest = holes.drop_first();
            lemma_bound_is_one(rest, name);
            if let Some(value) = text::bound(holes, name) {
                let j = choose|j: int| 0 <= j < rest.len() && (#[trigger] rest[j]).1 == value;
                assert(holes[j + 1] == rest[j]);
            }
        }
    }
}

proof fn lemma_bound_push(
    g: text::Bindings,
    h: text::Bindings,
    name: Seq<char>,
    a: Seq<char>,
    b: Seq<char>,
)
    requires
        bound_alike(g, h),
        alike(a, b),
    ensures
        bound_alike(g.push((name, a)), h.push((name, b))),
{
    let (x, y) = (g.push((name, a)), h.push((name, b)));
    assert forall|i: int| 0 <= i < x.len() implies (#[trigger] x[i]).0 == y[i].0 && alike(
        x[i].1,
        y[i].1,
    ) by {
        if i < g.len() {
            assert(x[i] == g[i] && y[i] == h[i]);
        }
    }
}

proof fn lemma_same_repeated(n: nat, f: spec_fn(int) -> Seq<char>, g: spec_fn(int) -> Seq<char>)
    requires
        forall|i: int| 0 <= i < n ==> #[trigger] f(i) == g(i),
    ensures
        text::repeated(n, f) == text::repeated(n, g),
    decreases n,
{
    if n > 0 {
        lemma_same_repeated((n - 1) as nat, f, g);
        assert(f(n - 1) == g(n - 1));
    }
}

// ------------------------------------------------------------------ the product

/// Whether two forms differ in how `B` is stored, and in nothing else.
pub open spec fn turned(f: GemmForm, g: GemmForm) -> bool {
    g == (GemmForm { transb: !f.transb, ..f })
}

/// Where an element of `B` lies in the tile, as text, holds no bracket.
proof fn lemma_place_unclosed(f: GemmForm, s: SlotCopy, e: nat, c: nat)
    ensures
        forall|k: int|
            0 <= k < gemm_source::b_depth(f, s, e, c).len() ==> #[trigger] gemm_source::b_depth(
                f,
                s,
                e,
                c,
            )[k] != ']',
        forall|k: int|
            0 <= k < gemm_source::b_column(f, s, e, c).len() ==> #[trigger] gemm_source::b_column(
                f,
                s,
                e,
                c,
            )[k] != ']',
{
    reveal_strlit("vc${e} * ${fw}u + ${c}u");
    reveal_strlit("k1 + bx${e} * ${fw}u + ${c}u");
    reveal_strlit("n0 + vr${e}");
    reveal_strlit("n0 + by${e}");
    reveal_strlit("");
    let holes = gemm_source::element_holes(f, ""@, e, c);
    text::lemma_decimal_digits(e);
    text::lemma_decimal_digits(f.fw());
    text::lemma_decimal_digits(c);
    assert forall|j: int, k: int|
        0 <= j < holes.len() && 0 <= k < holes[j].1.len() implies #[trigger] holes[j].1[k]
        != ']' by {
        assert(holes.len() == 4);
        if j == 1 {
            assert(holes[j].1 == text::decimal(e));
        } else if j == 2 {
            assert(holes[j].1 == text::decimal(f.fw()));
        } else if j == 3 {
            assert(holes[j].1 == text::decimal(c));
        }
    }
    lemma_unclosed_from(gemm_source::depth_template(s), 0, holes);
    lemma_unclosed_from(gemm_source::column_template(s), 0, holes);
}

proof fn lemma_unclosed_index(base: Seq<char>, a: Seq<char>, b: Seq<char>)
    requires
        forall|k: int| 0 <= k < base.len() ==> #[trigger] base[k] != ']',
        forall|k: int| 0 <= k < a.len() ==> #[trigger] a[k] != ']',
        forall|k: int| 0 <= k < b.len() ==> #[trigger] b[k] != ']',
    ensures
        forall|k: int|
            0 <= k < (base + "("@ + a + ") * gd.ldb + "@ + b).len() ==> #[trigger] (base + "("@ + a
                + ") * gd.ldb + "@ + b)[k] != ']',
{
    reveal_strlit("(");
    reveal_strlit(") * gd.ldb + ");
    let (p, q) = ("("@, ") * gd.ldb + "@);
    let all = base + p + a + q + b;
    let (at_a, at_q, at_b) = (
        base.len() + 1,
        base.len() + 1 + a.len(),
        base.len() + 1 + a.len() + q.len(),
    );
    assert forall|k: int| 0 <= k < all.len() implies #[trigger] all[k] != ']' by {
        if k < base.len() {
            assert(all[k] == base[k]);
        } else if k < at_a {
            assert(all[k] == p[k - base.len()]);
        } else if k < at_q {
            assert(all[k] == a[k - at_a]);
        } else if k < at_b {
            assert(all[k] == q[k - at_q]);
        } else {
            assert(all[k] == b[k - at_b]);
        }
    }
}

proof fn lemma_element(f: GemmForm, g: GemmForm, s: SlotCopy, e: nat, c: nat)
    requires
        turned(f, g),
    ensures
        alike(gemm_source::element(f, s, e, c), gemm_source::element(g, s, e, c)),
{
    if (s is PrefetchB || s is StageB) && !f.conv_direct {
        let k = gemm_source::b_depth(f, s, e, c);
        let n = gemm_source::b_column(f, s, e, c);
        assert(k == gemm_source::b_depth(g, s, e, c));
        assert(n == gemm_source::b_column(g, s, e, c));
        lemma_place_unclosed(f, s, e, c);
        let base = f.b_base();
        reveal_strlit("bbase + ");
        reveal_strlit("");
        lemma_unclosed_index(base, k, n);
        lemma_unclosed_index(base, n, k);
        let kn = base + "("@ + k + ") * gd.ldb + "@ + n;
        let nk = base + "("@ + n + ") * gd.ldb + "@ + k;
        lemma_alike_reads(kn, nk);
        lemma_alike_reads(nk, kn);
    } else {
        assert(gemm_source::element(f, s, e, c) == gemm_source::element(g, s, e, c));
    }
}

proof fn lemma_guarded(f: GemmForm, g: GemmForm, s: SlotCopy, e: nat, c: nat)
    requires
        turned(f, g),
    ensures
        alike(gemm_source::guarded(f, s, e, c), gemm_source::guarded(g, s, e, c)),
{
    lemma_element(f, g, s, e, c);
    if let Some(base) = gemm_source::guard_base(s) {
        let at = text::filled(base, gemm_source::element_holes(f, ""@, e, c));
        let (x, y) = (gemm_source::element(f, s, e, c), gemm_source::element(g, s, e, c));
        let (x1, y1) = (
            text::no_holes().push(("part"@, x)),
            text::no_holes().push(("part"@, y)),
        );
        lemma_bound_push(text::no_holes(), text::no_holes(), "part"@, x, y);
        lemma_bound_push(x1, y1, "at"@, at, at);
        let (x2, y2) = (x1.push(("at"@, at)), y1.push(("at"@, at)));
        let n = text::decimal(c);
        lemma_bound_push(x2, y2, "c"@, n, n);
        let (x3, y3) = (x2.push(("c"@, n)), y2.push(("c"@, n)));
        lemma_alike_filled("select(0.0, ${part}, ${at} < gd.k)"@, x3, y3);
        lemma_alike_filled("select(0.0, ${part}, ${at} + ${c}u < gd.k)"@, x3, y3);
    }
}

proof fn lemma_slot_value(f: GemmForm, g: GemmForm, s: SlotCopy, e: nat)
    requires
        turned(f, g),
    ensures
        alike(gemm_source::slot_value(f, s, e), gemm_source::slot_value(g, s, e)),
{
    let a = Seq::new(f.fw(), |c: int| gemm_source::guarded(f, s, e, c as nat));
    let b = Seq::new(g.fw(), |c: int| gemm_source::guarded(g, s, e, c as nat));
    assert forall|i: int| 0 <= i < a.len() implies alike(#[trigger] a[i], b[i]) by {
        lemma_guarded(f, g, s, e, i as nat);
    }
    let sep = ",\n               "@;
    lemma_alike_joined(a, b, sep);
    let fvt = f.slot_type();
    lemma_bound_push(text::no_holes(), text::no_holes(), "fvt"@, fvt, fvt);
    let lead = text::no_holes().push(("fvt"@, fvt));
    lemma_bound_push(lead, lead, "parts"@, text::joined(a, sep), text::joined(b, sep));
    lemma_alike_filled(
        "${fvt}(\n               ${parts})"@,
        lead.push(("parts"@, text::joined(a, sep))),
        lead.push(("parts"@, text::joined(b, sep))),
    );
}

proof fn lemma_slot_copies(f: GemmForm, g: GemmForm, s: SlotCopy, n: nat)
    requires
        turned(f, g),
    ensures
        alike(gemm_source::slot_copies(f, s, n), gemm_source::slot_copies(g, s, n)),
{
    assert forall|e: int| 0 <= e < n implies alike(
        #[trigger] gemm_source::slot_copy(f, s, e as nat),
        gemm_source::slot_copy(g, s, e as nat),
    ) by {
        let e = e as nat;
        lemma_slot_value(f, g, s, e);
        let (x, y) = (gemm_source::slot_value(f, s, e), gemm_source::slot_value(g, s, e));
        let lead = text::no_holes().push(("e"@, text::decimal(e))).push(
            ("flat"@, gemm_source::flat_slot(f, e)),
        ).push(("row"@, text::decimal(f.row_slots()))).push(
            ("column"@, gemm_source::column_walk(f)),
        ).push(("pair"@, gemm_source::pair_walk(f)));
        lemma_bound_push(lead, lead, "value"@, x, y);
        lemma_alike_filled(
            gemm_source::slot_lines(s),
            lead.push(("value"@, x)),
            lead.push(("value"@, y)),
        );
        assert(gemm_source::flat_slot(f, e) == gemm_source::flat_slot(g, e));
    }
    let p = |e: int| gemm_source::slot_copy(f, s, e as nat);
    let q = |e: int| gemm_source::slot_copy(g, s, e as nat);
    assert forall|e: int| 0 <= e < n implies alike(#[trigger] p(e), q(e)) by {
        assert(alike(
            gemm_source::slot_copy(f, s, e as nat),
            gemm_source::slot_copy(g, s, e as nat),
        ));
    }
    lemma_alike_repeated(n, p, q);
}

/// The parts that do not address `B` do not depend on how it is stored.
proof fn lemma_same_frame(f: GemmForm, g: GemmForm)
    requires
        turned(f, g),
    ensures
        gemm_source::frame_holes(f) == gemm_source::frame_holes(g),
{
    let n = f.slots_a();
    lemma_same_repeated(
        n,
        |e: int| gemm_source::stats_line(f, e as nat),
        |e: int| gemm_source::stats_line(g, e as nat),
    );
    lemma_same_repeated(
        f.tm(),
        |i: int| gemm_source::accumulator_row(f.tn(), i as nat),
        |i: int| gemm_source::accumulator_row(g.tn(), i as nat),
    );
    lemma_same_registers(f, g, "pfa"@, f.slots_a());
    lemma_same_registers(f, g, "pfb"@, f.slots_b());
}

proof fn lemma_same_registers(f: GemmForm, g: GemmForm, name: Seq<char>, n: nat)
    requires
        turned(f, g),
    ensures
        gemm_source::prefetch_registers(f, name, n) == gemm_source::prefetch_registers(g, name, n),
{
    lemma_same_repeated(
        n,
        |e: int| gemm_source::prefetch_register(f, name, e as nat),
        |e: int| gemm_source::prefetch_register(g, name, e as nat),
    );
}

proof fn lemma_same_reduction(f: GemmForm, g: GemmForm)
    requires
        turned(f, g),
    ensures
        gemm_source::reduction(f) == gemm_source::reduction(g),
{
    lemma_same_repeated(
        f.row_slots(),
        |q: int| gemm_source::k_step(f, q as nat),
        |q: int| gemm_source::k_step(g, q as nat),
    );
}

proof fn lemma_same_epilogue(f: GemmForm, g: GemmForm)
    requires
        turned(f, g),
    ensures
        gemm_source::epilogue(f) == gemm_source::epilogue(g),
{
    assert forall|i: int| 0 <= i < f.tm() implies #[trigger] gemm_source::store_row(f, i as nat)
        == gemm_source::store_row(g, i as nat) by {
        lemma_same_repeated(
            f.tn(),
            |j: int| gemm_source::store_cell(f, i as nat, j as nat),
            |j: int| gemm_source::store_cell(g, i as nat, j as nat),
        );
    }
    lemma_same_repeated(
        f.tm(),
        |i: int| gemm_source::store_row(f, i as nat),
        |i: int| gemm_source::store_row(g, i as nat),
    );
}

proof fn lemma_alike_products(f: GemmForm, g: GemmForm)
    requires
        turned(f, g),
    ensures
        alike(gemm_source::gemm_wgsl(f), gemm_source::gemm_wgsl(g)),
{
    lemma_same_frame(f, g);
    lemma_same_reduction(f, g);
    lemma_same_epilogue(f, g);
    let (na, nb) = (f.slots_a(), f.slots_b());
    let frame = gemm_source::frame_holes(f);
    let pair = |h: GemmForm, a: SlotCopy, b: SlotCopy|
        gemm_source::slot_copies(h, a, na) + gemm_source::slot_copies(h, b, nb);
    assert forall|a: SlotCopy, b: SlotCopy| alike(#[trigger] pair(f, a, b), pair(g, a, b)) by {
        lemma_slot_copies(f, g, a, na);
        lemma_slot_copies(f, g, b, nb);
        lemma_alike_both(
            gemm_source::slot_copies(f, a, na),
            gemm_source::slot_copies(g, a, na),
            gemm_source::slot_copies(f, b, nb),
            gemm_source::slot_copies(g, b, nb),
        );
    }
    let (s1, t1) = (
        pair(f, SlotCopy::StageA, SlotCopy::StageB),
        pair(g, SlotCopy::StageA, SlotCopy::StageB),
    );
    let (s2, t2) = (
        pair(f, SlotCopy::PrefetchA, SlotCopy::PrefetchB),
        pair(g, SlotCopy::PrefetchA, SlotCopy::PrefetchB),
    );
    let (s3, t3) = (
        pair(f, SlotCopy::StoreA, SlotCopy::StoreB),
        pair(g, SlotCopy::StoreA, SlotCopy::StoreB),
    );
    let (compute, tail) = (gemm_source::reduction(f), gemm_source::epilogue(f));
    lemma_bound_push(frame, frame, "store_stage0"@, s1, t1);
    let (x, y) = (frame.push(("store_stage0"@, s1)), frame.push(("store_stage0"@, t1)));
    lemma_bound_push(x, y, "prefetch"@, s2, t2);
    let (x, y) = (x.push(("prefetch"@, s2)), y.push(("prefetch"@, t2)));
    lemma_bound_push(x, y, "compute"@, compute, compute);
    let (x, y) = (x.push(("compute"@, compute)), y.push(("compute"@, compute)));
    lemma_bound_push(x, y, "store_prefetch"@, s3, t3);
    let (x, y) = (x.push(("store_prefetch"@, s3)), y.push(("store_prefetch"@, t3)));
    lemma_bound_push(x, y, "epilogue"@, tail, tail);
    let (x, y) = (x.push(("epilogue"@, tail)), y.push(("epilogue"@, tail)));
    lemma_alike_filled(wgsl::GEMM@, x, y);
}

/// Storing `B` the other way round changes its reads and no other character: the two
/// texts are one once those reads are masked.
pub proof fn law_transposing_moves_reads_alone(f: GemmForm, g: GemmForm)
    requires
        turned(f, g),
    ensures
        masked(gemm_source::gemm_wgsl(f)) == masked(gemm_source::gemm_wgsl(g)),
{
    lemma_alike_products(f, g);
    let (s, t) = (gemm_source::gemm_wgsl(f), gemm_source::gemm_wgsl(g));
    assert(pass_over(Mask::Outside, s) == pass_over(Mask::Outside, t));
}

/// Element `(k, n)` of a `B` stored `(k, n)` is read at `k * ldb + n`, of one stored
/// `(n, k)` at `n * ldb + k`, behind the batch's base where there is one.
pub proof fn law_reads_follow_the_storage(f: GemmForm, s: SlotCopy, e: nat, c: nat)
    requires
        !f.conv_direct,
        s is PrefetchB || s is StageB,
    ensures
        ({
            let base = if f.batched {
                "bbase + "@
            } else {
                ""@
            };
            let k = gemm_source::b_depth(f, s, e, c);
            let n = gemm_source::b_column(f, s, e, c);
            gemm_source::element(f, s, e, c) == if f.transb {
                "B["@ + (base + "("@ + n + ") * gd.ldb + "@ + k) + "]"@
            } else {
                "B["@ + (base + "("@ + k + ") * gd.ldb + "@ + n) + "]"@
            }
        }),
{
}

/// The transposed product's text is the plain one's but for the reads of `B`.
pub proof fn law_transposed_product(batched: bool)
    ensures
        masked(shaders::gemm_f32_transb_wgsl(batched)) == masked(shaders::gemm_f32_wgsl(batched)),
{
    let plain = GemmForm { batched, ..shaders::plain_form(shaders::Tile::square_spec()) };
    law_transposing_moves_reads_alone(plain, GemmForm { transb: true, ..plain });
}

// ------------------------------------------------------------------- the staging

/// The column of the tile of `B` that flat slot `i` fills, in every K block.
pub open spec fn slot_column(f: GemmForm, i: int) -> int {
    if f.coalesced_b {
        i % (f.tile.bn as int)
    } else {
        i / (f.row_slots() as int)
    }
}

/// The slot along K that flat slot `i` fills.
pub open spec fn slot_pair(f: GemmForm, i: int) -> int {
    if f.coalesced_b {
        i / (f.tile.bn as int)
    } else {
        i % (f.row_slots() as int)
    }
}

/// Whichever way the slots are walked, each place of the tile of `B` is filled.
pub proof fn law_every_slot_is_staged(f: GemmForm, column: int, pair: int) -> (i: int)
    requires
        0 <= column < f.tile.bn,
        0 <= pair < f.row_slots(),
    ensures
        0 <= i < f.tile.bn * f.row_slots(),
        slot_column(f, i) == column,
        slot_pair(f, i) == pair,
{
    let bn = f.tile.bn as int;
    let row = f.row_slots() as int;
    if f.coalesced_b {
        let i = pair * bn + column;
        assert(0 <= i < bn * row) by (nonlinear_arith)
            requires
                i == pair * bn + column,
                0 <= column < bn,
                0 <= pair < row,
        ;
        vstd::arithmetic::div_mod::lemma_fundamental_div_mod_converse(i, bn, pair, column);
        i
    } else {
        let i = column * row + pair;
        assert(0 <= i < bn * row) by (nonlinear_arith)
            requires
                i == column * row + pair,
                0 <= column < bn,
                0 <= pair < row,
        ;
        vstd::arithmetic::div_mod::lemma_fundamental_div_mod_converse(i, row, column, pair);
        i
    }
}

/// In the coalesced walk consecutive slots are consecutive columns at one K, up to the
/// tile's edge.
pub proof fn law_lanes_walk_columns(f: GemmForm, i: int)
    requires
        f.coalesced_b,
        f.tile.bn > 0,
        0 <= i,
        slot_column(f, i) + 1 < f.tile.bn,
    ensures
        slot_column(f, i + 1) == slot_column(f, i) + 1,
        slot_pair(f, i + 1) == slot_pair(f, i),
{
    let bn = f.tile.bn as int;
    vstd::arithmetic::div_mod::lemma_fundamental_div_mod(i, bn);
    let (q, r) = (i / bn, i % bn);
    vstd::arithmetic::div_mod::lemma_mod_bound(i, bn);
    assert(i + 1 == q * bn + (r + 1)) by (nonlinear_arith)
        requires
            i == bn * q + r,
    ;
    vstd::arithmetic::div_mod::lemma_fundamental_div_mod_converse(i + 1, bn, q, r + 1);
}

} // verus!
