//! What the transformer does with a pass: which layer's weights each pair of layers
//! applies, to what, and in which order.

use vstd::prelude::*;

use crate::gpu::kernels::Kernels;
use crate::gpu::recorder::{CommandView, Plan};
use crate::gpu::score;
use crate::gpu::score::Step;
use crate::gpu::stages::{GpuProj, LayerNorm};
use crate::gpu::tensor::TensorView;
use crate::gpu::transformer;
use crate::gpu::transformer::{GpuTransformer, GpuTransformerLayer, Heads};
use crate::gpu::transformer_steps;
use crate::gpu::transformer_steps::{
    attending, attends, attends_itself, attends_other, feeding, norms_rows, norms_segments,
    projects,
};
use crate::text;

verus! {

// -------------------------------------------------------------------------- pairs

/// The course of some pairs of layers: what each branch is before every pair and behind
/// the last, the tensors each layer makes, and where in the pass each pair begins.
pub struct Course {
    pub x: Seq<TensorView>,
    pub xt: Seq<TensorView>,
    pub w: Seq<Seq<TensorView>>,
    pub wt: Seq<Seq<TensorView>>,
    pub marks: Seq<int>,
}

/// What pair `i` does: the spectrogram's layer `i` and the waveform's layer `i`, each on
/// its branch. In a crossing pair both attend to what the other was before the pair.
#[verifier::opaque]
pub open spec fn pair(
    heads: Heads,
    t: GpuTransformer,
    rows: usize,
    rows_t: usize,
    batch: usize,
    c: Course,
    i: int,
) -> Seq<Step> {
    let layer = t.layers@[i];
    let layer_t = t.layers_t@[i];
    let ones = t.ones@;
    let zeros = t.zeros@;
    if layer.is_cross {
        attends_other(layer, c.x[i], c.xt[i], heads, ones, zeros, rows, rows_t, batch, c.w[i])
            + attends_other(
            layer_t,
            c.xt[i],
            c.x[i],
            heads,
            ones,
            zeros,
            rows_t,
            rows,
            batch,
            c.wt[i],
        )
    } else {
        attends_itself(layer, c.x[i], heads, ones, zeros, rows, batch, c.w[i]) + attends_itself(
            layer_t,
            c.xt[i],
            heads,
            ones,
            zeros,
            rows_t,
            batch,
            c.wt[i],
        )
    }
}

/// Whether the commands of pair `i` are what that pair does, and both branches go on with
/// what their layers left.
pub open spec fn follows_at(
    commands: Seq<CommandView>,
    from: int,
    to: int,
    heads: Heads,
    t: GpuTransformer,
    rows: usize,
    rows_t: usize,
    batch: usize,
    c: Course,
    i: int,
) -> bool {
    let begin = c.marks[i];
    let end = c.marks[i + 1];
    &&& from <= begin && begin <= end && end <= to
    &&& score::score(commands.subrange(begin, end)) == pair(heads, t, rows, rows_t, batch, c, i)
    &&& c.w[i].len() > 0 && c.x[i + 1] == c.w[i].last()
    &&& c.wt[i].len() > 0 && c.xt[i + 1] == c.wt[i].last()
}

/// Whether commands from `from` to `to` are `n` pairs of layers, in order: every branch
/// goes on with what its layer left, and every pair's launches are what that pair does.
pub open spec fn follows(
    commands: Seq<CommandView>,
    from: int,
    to: int,
    heads: Heads,
    t: GpuTransformer,
    rows: usize,
    rows_t: usize,
    batch: usize,
    n: nat,
    c: Course,
) -> bool {
    &&& c.x.len() == n + 1 && c.xt.len() == n + 1 && c.marks.len() == n + 1
    &&& c.w.len() == n && c.wt.len() == n
    &&& c.marks[0] == from && c.marks[n as int] == to
    &&& forall|i: int|
        0 <= i < n ==> #[trigger] follows_at(
            commands,
            from,
            to,
            heads,
            t,
            rows,
            rows_t,
            batch,
            c,
            i,
        )
}

/// Whether every tensor the pairs make stands in a buffer of its own, made while that
/// pair was planned.
pub open spec fn makes(s: Plan, n: nat, c: Course) -> bool {
    forall|i: int|
        0 <= i < n ==> score::stand(#[trigger] c.w[i] + c.wt[i], s.id, c.marks[i], c.marks[i + 1])
}

proof fn lemma_pair(
    k: Kernels,
    s: Plan,
    heads: Heads,
    t: GpuTransformer,
    spec_in: TensorView,
    time_in: TensorView,
    rows: usize,
    rows_t: usize,
    batch: usize,
    n: nat,
    c: Course,
) -> (r: (Seq<TensorView>, Seq<TensorView>))
    requires
        n > 0,
        c.x.len() == n,
        c.xt.len() == n,
        c.w.len() == n - 1,
        c.wt.len() == n - 1,
        c.x[n - 1] == transformer::pairs_plan(
            k,
            s,
            heads,
            t,
            spec_in,
            time_in,
            rows,
            rows_t,
            batch,
            (n - 1) as nat,
        ).1,
        c.xt[n - 1] == transformer::pairs_plan(
            k,
            s,
            heads,
            t,
            spec_in,
            time_in,
            rows,
            rows_t,
            batch,
            (n - 1) as nat,
        ).2,
    ensures
        ({
            let before = transformer::pairs_plan(
                k,
                s,
                heads,
                t,
                spec_in,
                time_in,
                rows,
                rows_t,
                batch,
                (n - 1) as nat,
            ).0;
            let (after, y, yt) = transformer::pairs_plan(
                k,
                s,
                heads,
                t,
                spec_in,
                time_in,
                rows,
                rows_t,
                batch,
                n,
            );
            let d = (Course { w: c.w.push(r.0), wt: c.wt.push(r.1), ..c });
            &&& r.0.len() > 0 && r.1.len() > 0
            &&& after.fault is None ==> y == r.0.last() && yt == r.1.last()
            &&& score::runs(
                before,
                after,
                pair(heads, t, rows, rows_t, batch, d, n - 1),
                r.0 + r.1,
            )
        }),
{
    reveal(pair);
    let (before, x, xt) = transformer::pairs_plan(
        k,
        s,
        heads,
        t,
        spec_in,
        time_in,
        rows,
        rows_t,
        batch,
        (n - 1) as nat,
    );
    let layer = t.layers@[n - 1];
    let layer_t = t.layers_t@[n - 1];
    let ones = t.ones@;
    let zeros = t.zeros@;
    let name = "crosstransformer.layers."@ + text::decimal((n - 1) as nat);
    let name_t = "crosstransformer.layers_t."@ + text::decimal((n - 1) as nat);
    if layer.is_cross {
        let w = transformer_steps::lemma_attends_other(
            k,
            before,
            heads,
            ones,
            zeros,
            layer,
            x,
            xt,
            rows,
            rows_t,
            batch,
            name,
        );
        let (s1, y) = transformer::cross_layer_plan(
            k,
            before,
            heads,
            ones,
            zeros,
            layer,
            x,
            xt,
            rows,
            rows_t,
            batch,
            name,
        );
        let wt = transformer_steps::lemma_attends_other(
            k,
            s1,
            heads,
            ones,
            zeros,
            layer_t,
            xt,
            x,
            rows_t,
            rows,
            batch,
            name_t,
        );
        let (s2, yt) = transformer::cross_layer_plan(
            k,
            s1,
            heads,
            ones,
            zeros,
            layer_t,
            xt,
            x,
            rows_t,
            rows,
            batch,
            name_t,
        );
        score::lemma_then(
            before,
            s1,
            s2,
            attends_other(layer, x, xt, heads, ones, zeros, rows, rows_t, batch, w),
            w,
            attends_other(layer_t, xt, x, heads, ones, zeros, rows_t, rows, batch, wt),
            wt,
        );
        score::lemma_faultless(
            s1,
            s2,
            attends_other(layer_t, xt, x, heads, ones, zeros, rows_t, rows, batch, wt),
            wt,
        );
        let d = Course { w: c.w.push(w), wt: c.wt.push(wt), ..c };
        assert(d.w[n - 1] == w && d.wt[n - 1] == wt);
        (w, wt)
    } else {
        let w = transformer_steps::lemma_attends_itself(
            k,
            before,
            heads,
            ones,
            zeros,
            layer,
            x,
            rows,
            batch,
            name,
        );
        let (s1, y) = transformer::self_layer_plan(
            k,
            before,
            heads,
            ones,
            zeros,
            layer,
            x,
            rows,
            batch,
            name,
        );
        let wt = transformer_steps::lemma_attends_itself(
            k,
            s1,
            heads,
            ones,
            zeros,
            layer_t,
            xt,
            rows_t,
            batch,
            name_t,
        );
        let (s2, yt) = transformer::self_layer_plan(
            k,
            s1,
            heads,
            ones,
            zeros,
            layer_t,
            xt,
            rows_t,
            batch,
            name_t,
        );
        score::lemma_then(
            before,
            s1,
            s2,
            attends_itself(layer, x, heads, ones, zeros, rows, batch, w),
            w,
            attends_itself(layer_t, xt, heads, ones, zeros, rows_t, batch, wt),
            wt,
        );
        let d = Course { w: c.w.push(w), wt: c.wt.push(wt), ..c };
        assert(d.w[n - 1] == w && d.wt[n - 1] == wt);
        (w, wt)
    }
}

/// A pair does not depend on what stands in the course behind it.
proof fn lemma_pair_stays(
    heads: Heads,
    t: GpuTransformer,
    rows: usize,
    rows_t: usize,
    batch: usize,
    c: Course,
    d: Course,
    i: int,
)
    requires
        c.x[i] == d.x[i],
        c.xt[i] == d.xt[i],
        c.w[i] == d.w[i],
        c.wt[i] == d.wt[i],
    ensures
        pair(heads, t, rows, rows_t, batch, c, i) == pair(heads, t, rows, rows_t, batch, d, i),
{
    reveal(pair);
}

/// The transformer's pairs of layers are run through in order, and pair `i` applies the
/// weights of layer `i` of either branch and of no other: for every layer of either list
/// there is exactly one stretch of the pass, its launches are that layer's norms,
/// projections, attention and feeding, bound to that layer's buffers, on what the pair
/// before left, and what it writes stands in buffers made in that stretch.
pub proof fn law_every_pair_applies_its_own_layers(
    k: Kernels,
    s: Plan,
    heads: Heads,
    t: GpuTransformer,
    spec_in: TensorView,
    time_in: TensorView,
    rows: usize,
    rows_t: usize,
    batch: usize,
    n: nat,
) -> (c: Course)
    ensures
        ({
            let (r, y, yt) = transformer::pairs_plan(
                k,
                s,
                heads,
                t,
                spec_in,
                time_in,
                rows,
                rows_t,
                batch,
                n,
            );
            r.fault is None ==> {
                &&& follows(
                    r.commands,
                    s.commands.len() as int,
                    r.commands.len() as int,
                    heads,
                    t,
                    rows,
                    rows_t,
                    batch,
                    n,
                    c,
                )
                &&& c.x[0] == spec_in && c.xt[0] == time_in
                &&& c.x[n as int] == y && c.xt[n as int] == yt
                &&& s.fault is None && r.id == s.id
                &&& s.commands.len() <= r.commands.len()
                &&& r.commands.take(s.commands.len() as int) == s.commands
                &&& r.commands.len() <= usize::MAX ==> makes(s, n, c)
            }
        }),
    decreases n,
{
    if n == 0 {
        assert(s.commands.take(s.commands.len() as int) =~= s.commands);
        Course {
            x: seq![spec_in],
            xt: seq![time_in],
            w: Seq::empty(),
            wt: Seq::empty(),
            marks: seq![s.commands.len() as int],
        }
    } else {
        let m = (n - 1) as nat;
        let e = law_every_pair_applies_its_own_layers(
            k,
            s,
            heads,
            t,
            spec_in,
            time_in,
            rows,
            rows_t,
            batch,
            m,
        );
        let (before, x, xt) = transformer::pairs_plan(
            k,
            s,
            heads,
            t,
            spec_in,
            time_in,
            rows,
            rows_t,
            batch,
            m,
        );
        let (r, y, yt) = transformer::pairs_plan(
            k,
            s,
            heads,
            t,
            spec_in,
            time_in,
            rows,
            rows_t,
            batch,
            n,
        );
        let c = Course {
            x: Seq::new(
                n,
                |i: int|
                    if i < m {
                        e.x[i]
                    } else {
                        x
                    },
            ),
            xt: Seq::new(
                n,
                |i: int|
                    if i < m {
                        e.xt[i]
                    } else {
                        xt
                    },
            ),
            w: Seq::new(m, |i: int| e.w[i]),
            wt: Seq::new(m, |i: int| e.wt[i]),
            marks: e.marks,
        };
        let (w, wt) = lemma_pair(
            k,
            s,
            heads,
            t,
            spec_in,
            time_in,
            rows,
            rows_t,
            batch,
            n,
            c,
        );
        let d = Course {
            x: c.x.push(w.last()),
            xt: c.xt.push(wt.last()),
            w: c.w.push(w),
            wt: c.wt.push(wt),
            marks: e.marks.push(r.commands.len() as int),
        };
        let last = pair(
            heads,
            t,
            rows,
            rows_t,
            batch,
            (Course { w: d.w, wt: d.wt, ..c }),
            n - 1,
        );
        lemma_pair_stays(
            heads,
            t,
            rows,
            rows_t,
            batch,
            (Course { w: d.w, wt: d.wt, ..c }),
            d,
            n - 1,
        );
        if r.fault is None {
            score::lemma_spent(before, r, last, w + wt);
            let from = s.commands.len() as int;
            assert(r.commands.take(from) =~= before.commands.take(from)) by {
                assert forall|j: int| 0 <= j < from implies r.commands[j]
                    == before.commands[j] by {
                    assert(r.commands.take(before.commands.len() as int)[j] == r.commands[j]);
                }
            }
            let to = r.commands.len() as int;
            assert forall|i: int| 0 <= i < n implies #[trigger] follows_at(
                r.commands,
                from,
                to,
                heads,
                t,
                rows,
                rows_t,
                batch,
                d,
                i,
            ) by {
                if i < m {
                    assert(e.marks[i] == d.marks[i]);
                    assert(d.marks[i + 1] == e.marks[i + 1]);
                    assert(d.w[i] == e.w[i] && d.wt[i] == e.wt[i]);
                    assert(d.x[i] == e.x[i] && d.xt[i] == e.xt[i]);
                    assert(follows_at(
                        before.commands,
                        from,
                        before.commands.len() as int,
                        heads,
                        t,
                        rows,
                        rows_t,
                        batch,
                        e,
                        i,
                    ));
                    lemma_pair_stays(heads, t, rows, rows_t, batch, e, d, i);
                    assert(r.commands.subrange(d.marks[i], d.marks[i + 1])
                        =~= before.commands.subrange(e.marks[i], e.marks[i + 1])) by {
                        assert forall|j: int| 0 <= j < before.commands.len() implies r.commands[j]
                            == before.commands[j] by {
                            assert(r.commands.take(before.commands.len() as int)[j]
                                == r.commands[j]);
                        }
                    }
                    assert(d.x[i + 1] == e.x[i + 1]);
                    assert(d.xt[i + 1] == e.xt[i + 1]);
                } else {
                    assert(d.marks[i] == before.commands.len());
                    assert(d.marks[i + 1] == r.commands.len());
                }
            }
            assert(d.x[0] == spec_in && d.xt[0] == time_in);
            assert(d.x[n as int] == y && d.xt[n as int] == yt);
            assert(d.marks[0] == from && d.marks[n as int] == r.commands.len());
            assert(follows(r.commands, from, to, heads, t, rows, rows_t, batch, n, d));
            if r.commands.len() <= usize::MAX {
                assert forall|i: int| 0 <= i < n implies score::stand(
                    #[trigger] d.w[i] + d.wt[i],
                    s.id,
                    d.marks[i],
                    d.marks[i + 1],
                ) by {
                    if i < m {
                        assert(e.w[i] + e.wt[i] == d.w[i] + d.wt[i]);
                    } else {
                        assert(d.marks[i] == before.commands.len());
                        assert(d.w[i] + d.wt[i] == w + wt);
                    }
                }
                assert(makes(s, n, d));
            }
        }
        d
    }
}

// ------------------------------------------------------------------------ weights

/// Whether one of the launches from `from` to `to` binds the whole of a tensor.
pub open spec fn bound(commands: Seq<CommandView>, from: int, to: int, p: TensorView) -> bool {
    exists|i: int| from <= i < to && #[trigger] score::binds(commands[i], p)
}

/// Whether launches bind all a layer holds. A projection's weights are bound where the
/// projection has numbers in and out.
pub open spec fn applied(
    commands: Seq<CommandView>,
    from: int,
    to: int,
    layer: GpuTransformerLayer,
    crossing: bool,
) -> bool {
    &&& bound(commands, from, to, layer.norm1.scale@)
    &&& bound(commands, from, to, layer.norm1.shift@)
    &&& bound(commands, from, to, layer.norm2.scale@)
    &&& bound(commands, from, to, layer.norm2.shift@)
    &&& crossing ==> bound(commands, from, to, (layer.norm3->0).scale@)
    &&& crossing ==> bound(commands, from, to, (layer.norm3->0).shift@)
    &&& bound(commands, from, to, layer.norm_out.scale@)
    &&& bound(commands, from, to, layer.norm_out.shift@)
    &&& bound(commands, from, to, layer.gamma1@)
    &&& bound(commands, from, to, layer.gamma2@)
    &&& project_bound(commands, from, to, layer.q_proj)
    &&& project_bound(commands, from, to, layer.k_proj)
    &&& project_bound(commands, from, to, layer.v_proj)
    &&& project_bound(commands, from, to, layer.out_proj)
    &&& project_bound(commands, from, to, layer.linear1)
    &&& project_bound(commands, from, to, layer.linear2)
}

pub open spec fn project_bound(commands: Seq<CommandView>, from: int, to: int, p: GpuProj) -> bool {
    &&& bound(commands, from, to, p.bias@)
    &&& p.in_features > 0 && p.out_features > 0 ==> bound(commands, from, to, p.weight@)
}

/// Whether one of some steps binds the whole of a tensor.
#[verifier::opaque]
spec fn tells(steps: Seq<Step>, p: TensorView) -> bool {
    exists|j: int, place: int|
        0 <= j < steps.len() && 0 <= place < steps[j].table.len()
            && #[trigger] steps[j].table[place] == score::held(p)
}

proof fn lemma_tells_at(steps: Seq<Step>, j: int, place: int, p: TensorView)
    requires
        0 <= j < steps.len(),
        0 <= place < steps[j].table.len(),
        steps[j].table[place] == score::held(p),
    ensures
        tells(steps, p),
{
    reveal(tells);
}

proof fn lemma_tells_more(a: Seq<Step>, b: Seq<Step>)
    ensures
        forall|p: TensorView|
            tells(a, p) || tells(b, p) ==> #[trigger] tells(a + b, p),
{
    reveal(tells);
    assert forall|p: TensorView| tells(a, p) || tells(b, p) implies #[trigger] tells(a + b, p) by {
        if tells(a, p) {
            let (j, place) = choose|j: int, place: int|
                0 <= j < a.len() && 0 <= place < a[j].table.len()
                    && #[trigger] a[j].table[place] == score::held(p);
            assert((a + b)[j].table[place] == score::held(p));
        } else {
            let (j, place) = choose|j: int, place: int|
                0 <= j < b.len() && 0 <= place < b[j].table.len()
                    && #[trigger] b[j].table[place] == score::held(p);
            assert((a + b)[a.len() + j].table[place] == score::held(p));
        }
    }
}

/// Whether steps bind what a projection holds.
spec fn projects_it(steps: Seq<Step>, p: GpuProj) -> bool {
    &&& tells(steps, p.bias@)
    &&& p.in_features > 0 && p.out_features > 0 ==> tells(steps, p.weight@)
}

proof fn lemma_projects_it(
    x: TensorView,
    p: GpuProj,
    out: TensorView,
    rows: usize,
    ones: TensorView,
)
    requires
        rows > 0,
    ensures
        projects_it(projects(x, p, out, rows, ones), p),
{
    let steps = projects(x, p, out, rows, ones);
    let last = score::rescale(out, ones, p.bias@, rows as int, p.out_features as int, 1);
    assert(steps.last() == last);
    lemma_tells_at(steps, steps.len() - 1, 2, p.bias@);
    if p.in_features > 0 && p.out_features > 0 {
        lemma_tells_at(steps, 0, 1, p.weight@);
    }
}

proof fn lemma_norm_told(x: TensorView, norm: LayerNorm, out: TensorView, rows: usize)
    ensures
        tells(seq![norms_rows(x, norm, out, rows)], norm.scale@),
        tells(seq![norms_rows(x, norm, out, rows)], norm.shift@),
{
    lemma_tells_at(seq![norms_rows(x, norm, out, rows)], 0, 1, norm.scale@);
    lemma_tells_at(seq![norms_rows(x, norm, out, rows)], 0, 2, norm.shift@);
}

proof fn lemma_attending_told(
    layer: GpuTransformerLayer,
    x: TensorView,
    normed_q: TensorView,
    normed_k: TensorView,
    heads: Heads,
    ones: TensorView,
    zeros: TensorView,
    q_rows: usize,
    k_rows: usize,
    batch: usize,
    w: Seq<TensorView>,
)
    requires
        q_rows > 0,
        k_rows > 0,
    ensures
        ({
            let steps = attending(
                layer,
                x,
                normed_q,
                normed_k,
                heads,
                ones,
                zeros,
                q_rows,
                k_rows,
                batch,
                w,
            );
            &&& projects_it(steps, layer.q_proj)
            &&& projects_it(steps, layer.k_proj)
            &&& projects_it(steps, layer.v_proj)
            &&& projects_it(steps, layer.out_proj)
            &&& tells(steps, layer.gamma1@)
        }),
{
    let a = projects(normed_q, layer.q_proj, w[0], q_rows, ones);
    let b = projects(normed_k, layer.k_proj, w[1], k_rows, ones);
    let c = projects(normed_k, layer.v_proj, w[2], k_rows, ones);
    let d = attends(
        w[0],
        w[1],
        w[2],
        w[3],
        heads,
        batch,
        (q_rows / batch) as usize,
        (k_rows / batch) as usize,
        (layer.dim / heads.count) as usize,
        w.subrange(4, 10),
    );
    let e = projects(w[3], layer.out_proj, w[10], q_rows, ones);
    let f = seq![
        score::rescale(w[10], layer.gamma1@, zeros, q_rows as int, layer.dim as int, 1),
        score::copy(x, w[11], x.len() as usize as int),
        score::sum_into(w[11], w[10]),
    ];
    lemma_projects_it(normed_q, layer.q_proj, w[0], q_rows, ones);
    lemma_projects_it(normed_k, layer.k_proj, w[1], k_rows, ones);
    lemma_projects_it(normed_k, layer.v_proj, w[2], k_rows, ones);
    lemma_projects_it(w[3], layer.out_proj, w[10], q_rows, ones);
    lemma_tells_at(f, 0, 1, layer.gamma1@);
    lemma_tells_more(a, b);
    lemma_tells_more(a + b, c);
    lemma_tells_more(a + b + c, d);
    lemma_tells_more(a + b + c + d, e);
    lemma_tells_more(a + b + c + d + e, f);
}

proof fn lemma_feeding_told(
    layer: GpuTransformerLayer,
    norm: LayerNorm,
    x: TensorView,
    ones: TensorView,
    zeros: TensorView,
    rows: usize,
    batch: usize,
    w: Seq<TensorView>,
)
    requires
        rows > 0,
    ensures
        ({
            let steps = feeding(layer, norm, x, ones, zeros, rows, batch, w);
            &&& projects_it(steps, layer.linear1)
            &&& projects_it(steps, layer.linear2)
            &&& tells(steps, layer.gamma2@)
            &&& tells(steps, norm.scale@) && tells(steps, norm.shift@)
            &&& tells(steps, layer.norm_out.scale@) && tells(steps, layer.norm_out.shift@)
        }),
{
    let a = seq![norms_rows(x, norm, w[0], rows)];
    let b = projects(w[0], layer.linear1, w[1], rows, ones);
    let c = seq![score::activate(w[1])];
    let d = projects(w[1], layer.linear2, w[2], rows, ones);
    let e = seq![
        score::rescale(w[2], layer.gamma2@, zeros, rows as int, layer.dim as int, 1),
        score::copy(x, w[3], x.len() as usize as int),
        score::sum_into(w[3], w[2]),
        norms_segments(w[3], layer.norm_out, w[4], rows, batch),
    ];
    lemma_norm_told(x, norm, w[0], rows);
    lemma_projects_it(w[0], layer.linear1, w[1], rows, ones);
    lemma_projects_it(w[1], layer.linear2, w[2], rows, ones);
    lemma_tells_at(e, 0, 1, layer.gamma2@);
    lemma_tells_at(e, 3, 1, layer.norm_out.scale@);
    lemma_tells_at(e, 3, 2, layer.norm_out.shift@);
    lemma_tells_more(a, b);
    lemma_tells_more(a + b, c);
    lemma_tells_more(a + b + c, d);
    lemma_tells_more(a + b + c + d, e);
}

/// Whether steps bind all a layer holds.
spec fn tells_layer(steps: Seq<Step>, layer: GpuTransformerLayer, crossing: bool) -> bool {
    &&& tells(steps, layer.norm1.scale@) && tells(steps, layer.norm1.shift@)
    &&& tells(steps, layer.norm2.scale@) && tells(steps, layer.norm2.shift@)
    &&& crossing ==> tells(steps, (layer.norm3->0).scale@) && tells(
        steps,
        (layer.norm3->0).shift@,
    )
    &&& tells(steps, layer.norm_out.scale@) && tells(steps, layer.norm_out.shift@)
    &&& tells(steps, layer.gamma1@) && tells(steps, layer.gamma2@)
    &&& projects_it(steps, layer.q_proj) && projects_it(steps, layer.k_proj)
    &&& projects_it(steps, layer.v_proj) && projects_it(steps, layer.out_proj)
    &&& projects_it(steps, layer.linear1) && projects_it(steps, layer.linear2)
}

proof fn lemma_itself_told(
    layer: GpuTransformerLayer,
    x: TensorView,
    heads: Heads,
    ones: TensorView,
    zeros: TensorView,
    rows: usize,
    batch: usize,
    w: Seq<TensorView>,
)
    requires
        rows > 0,
    ensures
        tells_layer(attends_itself(layer, x, heads, ones, zeros, rows, batch, w), layer, false),
{
    let a = seq![norms_rows(x, layer.norm1, w[0], rows)];
    let b = attending(
        layer,
        x,
        w[0],
        w[0],
        heads,
        ones,
        zeros,
        rows,
        rows,
        batch,
        w.subrange(1, 13),
    );
    let c = feeding(layer, layer.norm2, w[12], ones, zeros, rows, batch, w.subrange(13, 18));
    lemma_norm_told(x, layer.norm1, w[0], rows);
    lemma_attending_told(
        layer,
        x,
        w[0],
        w[0],
        heads,
        ones,
        zeros,
        rows,
        rows,
        batch,
        w.subrange(1, 13),
    );
    lemma_feeding_told(layer, layer.norm2, w[12], ones, zeros, rows, batch, w.subrange(13, 18));
    lemma_tells_more(a, b);
    lemma_tells_more(a + b, c);
}

proof fn lemma_other_told(
    layer: GpuTransformerLayer,
    x: TensorView,
    other: TensorView,
    heads: Heads,
    ones: TensorView,
    zeros: TensorView,
    rows: usize,
    other_rows: usize,
    batch: usize,
    w: Seq<TensorView>,
)
    requires
        rows > 0,
        other_rows > 0,
    ensures
        tells_layer(
            attends_other(layer, x, other, heads, ones, zeros, rows, other_rows, batch, w),
            layer,
            true,
        ),
{
    let a = seq![
        norms_rows(x, layer.norm1, w[0], rows),
        norms_rows(other, layer.norm2, w[1], other_rows),
    ];
    let b = attending(
        layer,
        x,
        w[0],
        w[1],
        heads,
        ones,
        zeros,
        rows,
        other_rows,
        batch,
        w.subrange(2, 14),
    );
    let c = feeding(layer, layer.norm3->0, w[13], ones, zeros, rows, batch, w.subrange(14, 19));
    lemma_tells_at(a, 0, 1, layer.norm1.scale@);
    lemma_tells_at(a, 0, 2, layer.norm1.shift@);
    lemma_tells_at(a, 1, 1, layer.norm2.scale@);
    lemma_tells_at(a, 1, 2, layer.norm2.shift@);
    lemma_attending_told(
        layer,
        x,
        w[0],
        w[1],
        heads,
        ones,
        zeros,
        rows,
        other_rows,
        batch,
        w.subrange(2, 14),
    );
    lemma_feeding_told(layer, layer.norm3->0, w[13], ones, zeros, rows, batch, w.subrange(14, 19));
    lemma_tells_more(a, b);
    lemma_tells_more(a + b, c);
}

proof fn lemma_told_is_bound(commands: Seq<CommandView>, from: int, to: int, p: TensorView)
    requires
        0 <= from <= to <= commands.len(),
        tells(score::score(commands.subrange(from, to)), p),
    ensures
        bound(commands, from, to, p),
{
    reveal(tells);
    let part = commands.subrange(from, to);
    let steps = score::score(part);
    let (j, place) = choose|j: int, place: int|
        0 <= j < steps.len() && 0 <= place < steps[j].table.len()
            && #[trigger] steps[j].table[place] == score::held(p);
    let i = score::lemma_bound(part, j, place, p);
    assert(part[i] == commands[from + i]);
    assert(score::binds(commands[from + i], p));
}

proof fn lemma_layer_applied(
    commands: Seq<CommandView>,
    from: int,
    to: int,
    layer: GpuTransformerLayer,
    crossing: bool,
)
    requires
        0 <= from <= to <= commands.len(),
        tells_layer(score::score(commands.subrange(from, to)), layer, crossing),
    ensures
        applied(commands, from, to, layer, crossing),
{
    lemma_told_is_bound(commands, from, to, layer.norm1.scale@);
    lemma_told_is_bound(commands, from, to, layer.norm1.shift@);
    lemma_told_is_bound(commands, from, to, layer.norm2.scale@);
    lemma_told_is_bound(commands, from, to, layer.norm2.shift@);
    if crossing {
        lemma_told_is_bound(commands, from, to, (layer.norm3->0).scale@);
        lemma_told_is_bound(commands, from, to, (layer.norm3->0).shift@);
    }
    lemma_told_is_bound(commands, from, to, layer.norm_out.scale@);
    lemma_told_is_bound(commands, from, to, layer.norm_out.shift@);
    lemma_told_is_bound(commands, from, to, layer.gamma1@);
    lemma_told_is_bound(commands, from, to, layer.gamma2@);
    lemma_project_applied(commands, from, to, layer.q_proj);
    lemma_project_applied(commands, from, to, layer.k_proj);
    lemma_project_applied(commands, from, to, layer.v_proj);
    lemma_project_applied(commands, from, to, layer.out_proj);
    lemma_project_applied(commands, from, to, layer.linear1);
    lemma_project_applied(commands, from, to, layer.linear2);
}

proof fn lemma_project_applied(commands: Seq<CommandView>, from: int, to: int, p: GpuProj)
    requires
        0 <= from <= to <= commands.len(),
        projects_it(score::score(commands.subrange(from, to)), p),
    ensures
        project_bound(commands, from, to, p),
{
    lemma_told_is_bound(commands, from, to, p.bias@);
    if p.in_features > 0 && p.out_features > 0 {
        lemma_told_is_bound(commands, from, to, p.weight@);
    }
}

/// In a pass through the transformer's pairs, the launches of pair `i` bind every norm,
/// projection, scale and feed-forward buffer of layer `i` of both branches, for every `i`.
pub proof fn law_every_layers_weights_are_bound_in_its_pair(
    k: Kernels,
    s: Plan,
    heads: Heads,
    t: GpuTransformer,
    spec_in: TensorView,
    time_in: TensorView,
    rows: usize,
    rows_t: usize,
    batch: usize,
    n: nat,
) -> (c: Course)
    requires
        rows > 0,
        rows_t > 0,
    ensures
        ({
            let (r, y, yt) = transformer::pairs_plan(
                k,
                s,
                heads,
                t,
                spec_in,
                time_in,
                rows,
                rows_t,
                batch,
                n,
            );
            r.fault is None ==> {
                &&& c.marks.len() == n + 1
                &&& c.marks[0] == s.commands.len() && c.marks[n as int] == r.commands.len()
                &&& forall|i: int|
                    0 <= i < n ==> {
                        let layer = #[trigger] t.layers@[i];
                        let begin = c.marks[i];
                        let end = c.marks[i + 1];
                        &&& begin <= end
                        &&& applied(r.commands, begin, end, layer, layer.is_cross)
                        &&& applied(r.commands, begin, end, t.layers_t@[i], layer.is_cross)
                    }
            }
        }),
{
    let c = law_every_pair_applies_its_own_layers(
        k,
        s,
        heads,
        t,
        spec_in,
        time_in,
        rows,
        rows_t,
        batch,
        n,
    );
    let (r, y, yt) = transformer::pairs_plan(
        k,
        s,
        heads,
        t,
        spec_in,
        time_in,
        rows,
        rows_t,
        batch,
        n,
    );
    if r.fault is None {
        let from = s.commands.len() as int;
        let to = r.commands.len() as int;
        assert forall|i: int| 0 <= i < n implies {
            let layer = #[trigger] t.layers@[i];
            let begin = c.marks[i];
            let end = c.marks[i + 1];
            &&& begin <= end
            &&& applied(r.commands, begin, end, layer, layer.is_cross)
            &&& applied(r.commands, begin, end, t.layers_t@[i], layer.is_cross)
        } by {
            assert(follows_at(r.commands, from, to, heads, t, rows, rows_t, batch, c, i));
            lemma_pair_told(heads, t, rows, rows_t, batch, c, i);
            let layer = t.layers@[i];
            lemma_layer_applied(r.commands, c.marks[i], c.marks[i + 1], layer, layer.is_cross);
            lemma_layer_applied(
                r.commands,
                c.marks[i],
                c.marks[i + 1],
                t.layers_t@[i],
                layer.is_cross,
            );
        }
    }
    c
}

proof fn lemma_both_told(
    a: Seq<Step>,
    b: Seq<Step>,
    layer: GpuTransformerLayer,
    layer_t: GpuTransformerLayer,
    crossing: bool,
)
    requires
        tells_layer(a, layer, crossing),
        tells_layer(b, layer_t, crossing),
    ensures
        tells_layer(a + b, layer, crossing),
        tells_layer(a + b, layer_t, crossing),
{
    lemma_tells_more(a, b);
}

#[verifier::rlimit(100)]
proof fn lemma_pair_told(
    heads: Heads,
    t: GpuTransformer,
    rows: usize,
    rows_t: usize,
    batch: usize,
    c: Course,
    i: int,
)
    requires
        rows > 0,
        rows_t > 0,
    ensures
        ({
            let steps = pair(heads, t, rows, rows_t, batch, c, i);
            let crossing = t.layers@[i].is_cross;
            &&& tells_layer(steps, t.layers@[i], crossing)
            &&& tells_layer(steps, t.layers_t@[i], crossing)
        }),
{
    reveal(pair);
    let layer = t.layers@[i];
    let layer_t = t.layers_t@[i];
    let x = c.x[i];
    let xt = c.xt[i];
    let w = c.w[i];
    let wt = c.wt[i];
    let ones = t.ones@;
    let zeros = t.zeros@;
    if layer.is_cross {
        lemma_other_told(layer, x, xt, heads, ones, zeros, rows, rows_t, batch, w);
        lemma_other_told(layer_t, xt, x, heads, ones, zeros, rows_t, rows, batch, wt);
        lemma_both_told(
            attends_other(layer, x, xt, heads, ones, zeros, rows, rows_t, batch, w),
            attends_other(layer_t, xt, x, heads, ones, zeros, rows_t, rows, batch, wt),
            layer,
            layer_t,
            true,
        );
    } else {
        lemma_itself_told(layer, x, heads, ones, zeros, rows, batch, w);
        lemma_itself_told(layer_t, xt, heads, ones, zeros, rows_t, batch, wt);
        lemma_both_told(
            attends_itself(layer, x, heads, ones, zeros, rows, batch, w),
            attends_itself(layer_t, xt, heads, ones, zeros, rows_t, batch, wt),
            layer,
            layer_t,
            false,
        );
    }
}

} // verus!