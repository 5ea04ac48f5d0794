//! What the decoders do with a pass: which layer applies which weights to what, and where
//! an activation follows.

use vstd::prelude::*;

use crate::gpu::conv_steps;
use crate::gpu::conv_steps::BranchCourse;
use crate::gpu::decoder;
use crate::gpu::decoder::{GpuDec, SavedView};
use crate::gpu::decoder_steps;
use crate::gpu::decoder_steps::{
    bins_made, decodes_bins, decodes_samples, samples_made, LayerCourse,
};
use crate::gpu::kernels::Kernels;
use crate::gpu::recorder::{CommandView, Plan};
use crate::gpu::score;
use crate::gpu::score::{Op, Step};
use crate::gpu::stages::GpuDConvLayer;
use crate::gpu::tensor::TensorView;

verus! {

/// The course of both decoders: what each branch is before every layer and behind the
/// last, the course of every layer, and where in the pass each spectrogram layer, and each
/// waveform layer behind it, begins.
pub struct DecoderCourse {
    pub x: Seq<TensorView>,
    pub xt: Seq<TensorView>,
    pub layers: Seq<LayerCourse>,
    pub layers_t: Seq<LayerCourse>,
    pub marks: Seq<int>,
    pub mids: Seq<int>,
}

/// Whether the commands of layer `i` are what that layer does, by that layer's weights: on
/// what the layer before left and what the encoders' layer `i` from the end left, with an
/// activation behind every layer but the one of number `depth - 1`.
pub open spec fn decodes_at(
    commands: Seq<CommandView>,
    from: int,
    to: int,
    k: Kernels,
    saved: SavedView,
    decoder: Seq<GpuDec>,
    tdecoder: Seq<GpuDec>,
    stride: usize,
    batch: usize,
    depth: nat,
    c: DecoderCourse,
    i: int,
) -> bool {
    let begin = c.marks[i];
    let mid = c.mids[i];
    let end = c.marks[i + 1];
    let last = i == depth - 1;
    &&& from <= begin && begin <= mid && mid <= end && end <= to
    &&& score::score(commands.subrange(begin, mid)) == decodes_bins(
        k,
        decoder[i],
        c.x[i],
        saved.freq[saved.freq.len() - 1 - i],
        stride,
        batch,
        c.layers[i],
        last,
    )
    &&& score::score(commands.subrange(mid, end)) == decodes_samples(
        k,
        tdecoder[i],
        c.xt[i],
        saved.time[saved.time.len() - 1 - i],
        stride,
        batch,
        saved.lengths[saved.lengths.len() - 1 - i],
        c.layers_t[i],
        last,
    )
    &&& is_led(decoder[i].dconv.layers@.len(), c.layers[i].branch)
    &&& is_led(tdecoder[i].dconv.layers@.len(), c.layers_t[i].branch)
    &&& c.layers[i].w.len() == 8 && c.x[i + 1] == c.layers[i].w[7]
    &&& c.layers_t[i].w.len() == 6 && c.xt[i + 1] == c.layers_t[i].w[5]
}

/// Whether the course of a residual branch leads through all its layers.
pub open spec fn is_led(n: nat, c: BranchCourse) -> bool {
    conv_steps::is_branch(c, n, c.x[0], c.x[n as int])
}

/// Whether the tensors layer `i` makes stand in buffers of their own, made while that
/// layer was planned.
pub open spec fn makes_at(
    s: Plan,
    decoder: Seq<GpuDec>,
    tdecoder: Seq<GpuDec>,
    c: DecoderCourse,
    i: int,
) -> bool {
    &&& score::stand(bins_made(decoder[i], c.layers[i]), s.id, c.marks[i], c.mids[i])
    &&& score::stand(samples_made(tdecoder[i], c.layers_t[i]), s.id, c.mids[i], c.marks[i + 1])
}

/// Whether commands from `from` to `to` are the first `n` layers of both decoders, in
/// order.
pub open spec fn decodes(
    commands: Seq<CommandView>,
    from: int,
    to: int,
    k: Kernels,
    saved: SavedView,
    decoder: Seq<GpuDec>,
    tdecoder: Seq<GpuDec>,
    stride: usize,
    batch: usize,
    depth: nat,
    n: nat,
    c: DecoderCourse,
) -> bool {
    &&& c.x.len() == n + 1 && c.xt.len() == n + 1 && c.marks.len() == n + 1
    &&& c.layers.len() == n && c.layers_t.len() == n && c.mids.len() == n
    &&& c.marks[0] == from && c.marks[n as int] == to
    &&& forall|i: int|
        0 <= i < n ==> #[trigger] decodes_at(
            commands,
            from,
            to,
            k,
            saved,
            decoder,
            tdecoder,
            stride,
            batch,
            depth,
            c,
            i,
        )
}

/// Commands in front stay what they are.
proof fn lemma_decodes_stays(
    before: Seq<CommandView>,
    after: Seq<CommandView>,
    from: int,
    mid: int,
    to: int,
    k: Kernels,
    saved: SavedView,
    decoder: Seq<GpuDec>,
    tdecoder: Seq<GpuDec>,
    stride: usize,
    batch: usize,
    depth: nat,
    c: DecoderCourse,
    d: DecoderCourse,
    i: int,
)
    requires
        0 <= from,
        decodes_at(before, from, mid, k, saved, decoder, tdecoder, stride, batch, depth, c, i),
        mid <= to,
        mid == before.len(),
        mid <= after.len(),
        after.take(mid) == before,
        c.x[i] == d.x[i] && c.x[i + 1] == d.x[i + 1],
        c.xt[i] == d.xt[i] && c.xt[i + 1] == d.xt[i + 1],
        c.layers[i] == d.layers[i] && c.layers_t[i] == d.layers_t[i],
        c.marks[i] == d.marks[i] && c.marks[i + 1] == d.marks[i + 1],
        c.mids[i] == d.mids[i],
    ensures
        decodes_at(after, from, to, k, saved, decoder, tdecoder, stride, batch, depth, d, i),
{
    assert forall|j: int| 0 <= j < mid implies after[j] == before[j] by {
        assert(after.take(mid)[j] == after[j]);
    }
    assert(after.subrange(d.marks[i], d.mids[i]) =~= before.subrange(c.marks[i], c.mids[i]));
    assert(after.subrange(d.mids[i], d.marks[i + 1]) =~= before.subrange(
        c.mids[i],
        c.marks[i + 1],
    ));
}

/// The decoders' layers are run through in order, a spectrogram layer and the waveform
/// layer of the same number behind it. Layer `i` of either applies the weights of layer
/// `i`, on what the layer before it left, after the sum with what the encoders' layer `i`
/// from the end left; an activation of its result follows but in the last, of number
/// `depth - 1`.
pub proof fn law_every_decoder_layer_applies_its_own_weights(
    k: Kernels,
    s: Plan,
    scratch: TensorView,
    x: TensorView,
    xt: TensorView,
    saved: SavedView,
    decoder: Seq<GpuDec>,
    tdecoder: Seq<GpuDec>,
    stride: usize,
    batch: usize,
    depth: nat,
    n: nat,
) -> (c: DecoderCourse)
    ensures
        ({
            let (r, room, y, yt) = decoder::layers_plan(
            k,
            s,
            scratch,
            x,
            xt,
            saved,
            decoder,
            tdecoder,
            stride,
            batch,
            depth,
            n,
        );
            r.fault is None ==> {
                &&& decodes(
                    r.commands,
                    s.commands.len() as int,
                    r.commands.len() as int,
                    k, saved, decoder, tdecoder, stride, batch, depth,
                    n,
                    c,
                )
                &&& c.x[0] == x && c.xt[0] == xt
                &&& c.x[n as int] == y && c.xt[n as int] == yt
                &&& s.fault is None && r.id == s.id
                &&& s.commands.len() <= r.commands.len()
                &&& r.commands.take(s.commands.len() as int) == s.commands
                &&& r.commands.len() <= usize::MAX ==> forall|i: int|
                    0 <= i < n ==> #[trigger] makes_at(s, decoder, tdecoder, c, i)
            }
        }),
    decreases n,
{
    reveal(decoder::layers_plan);
    if n == 0 {
        assert(s.commands.take(s.commands.len() as int) =~= s.commands);
        DecoderCourse {
            x: seq![x],
            xt: seq![xt],
            layers: Seq::empty(),
            layers_t: Seq::empty(),
            marks: seq![s.commands.len() as int],
            mids: Seq::empty(),
        }
    } else {
        let m = (n - 1) as nat;
        let e = law_every_decoder_layer_applies_its_own_weights(
            k,
            s,
            scratch,
            x,
            xt,
            saved,
            decoder,
            tdecoder,
            stride,
            batch,
            depth,
            m,
        );
        let (before, room, y, yt) = decoder::layers_plan(
            k,
            s,
            scratch,
            x,
            xt,
            saved,
            decoder,
            tdecoder,
            stride,
            batch,
            depth,
            m,
        );
        let last = n == depth;
        let skip = saved.freq[saved.freq.len() - n];
        let skip_t = saved.time[saved.time.len() - n];
        let length = saved.lengths[saved.lengths.len() - n];
        let layer = decoder[n - 1];
        let layer_t = tdecoder[n - 1];
        let (s1, room1, z) = decoder::freq_layer_plan(
            k,
            before,
            room,
            y,
            skip,
            layer,
            stride,
            batch,
            m,
            last,
        );
        let a = decoder_steps::lemma_decodes_bins(
            k,
            before,
            room,
            y,
            skip,
            layer,
            stride,
            batch,
            m,
            last,
        );
        let (r, room2, zt) = decoder::time_layer_plan(
            k,
            s1,
            room1,
            yt,
            skip_t,
            layer_t,
            stride,
            batch,
            length,
            m,
            last,
        );
        let b = decoder_steps::lemma_decodes_samples(
            k,
            s1,
            room1,
            yt,
            skip_t,
            layer_t,
            stride,
            batch,
            length,
            m,
            last,
        );
        let d = DecoderCourse {
            x: e.x.push(z),
            xt: e.xt.push(zt),
            layers: e.layers.push(a),
            layers_t: e.layers_t.push(b),
            marks: e.marks.push(r.commands.len() as int),
            mids: e.mids.push(s1.commands.len() as int),
        };
        if r.fault is None {
            let steps = decodes_bins(k, layer, y, skip, stride, batch, a, last);
            let steps_t = decodes_samples(
                k,
                layer_t,
                yt,
                skip_t,
                stride,
                batch,
                length,
                b,
                last,
            );
            score::lemma_spent(s1, r, steps_t, samples_made(layer_t, b));
            score::lemma_spent(before, s1, steps, bins_made(layer, a));
            let from = s.commands.len() as int;
            let old_to = before.commands.len() as int;
            let mid = s1.commands.len() as int;
            let to = r.commands.len() as int;
            assert forall|j: int| 0 <= j < mid implies r.commands[j] == s1.commands[j] by {
                assert(r.commands.take(mid)[j] == r.commands[j]);
            }
            assert forall|j: int| 0 <= j < old_to implies s1.commands[j]
                == before.commands[j] by {
                assert(s1.commands.take(old_to)[j] == s1.commands[j]);
            }
            assert(r.commands.take(old_to) =~= before.commands);
            assert(r.commands.take(from) =~= before.commands.take(from));
            assert(r.commands.subrange(old_to, mid) =~= s1.commands.subrange(old_to, mid));
            assert(d.marks[m as int] == old_to && d.marks[n as int] == to);
            assert(d.mids[m as int] == mid);
            assert(d.x[m as int] == y && d.xt[m as int] == yt);
            assert(d.x[n as int] == z && d.xt[n as int] == zt);
            assert(d.layers[m as int] == a && d.layers_t[m as int] == b);
            assert(d.marks[0] == from);
            assert(d.x[0] == x && d.xt[0] == xt);
            assert(
                decodes_at(
                    r.commands,
                    from,
                    to,
                    k,
                    saved,
                    decoder,
                    tdecoder,
                    stride,
                    batch,
                    depth,
                    d,
                    m as int,
                )
            );
            assert forall|i: int| 0 <= i < n implies #[trigger] decodes_at(
                r.commands,
                from,
                to,
                k,
                saved,
                decoder,
                tdecoder,
                stride,
                batch,
                depth,
                d,
                i,
            ) by {
                if i < m {
                    lemma_decodes_stays(
                        before.commands,
                        r.commands,
                        from,
                        old_to,
                        to,
                        k, saved, decoder, tdecoder, stride, batch, depth,
                        e,
                        d,
                        i,
                    );
                }
            }
            assert(
                decodes(
                    r.commands,
                    from,
                    to,
                    k,
                    saved,
                    decoder,
                    tdecoder,
                    stride,
                    batch,
                    depth,
                    n,
                    d,
                )
            );
            if r.commands.len() <= usize::MAX {
                assert forall|i: int| 0 <= i < n implies #[trigger] makes_at(
                    s,
                    decoder,
                    tdecoder,
                    d,
                    i,
                ) by {
                    if i < m {
                        assert(makes_at(s, decoder, tdecoder, e, i));
                    }
                }
            }
        }
        d
    }
}

// -------------------------------------------------------------------- activations

/// Whether a command is a launch that activates a tensor.
pub open spec fn activates(c: CommandView, t: TensorView) -> bool {
    c matches CommandView::Dispatch(d) && score::op_of(d.kernel) == Op::Gelu && d.table.len() > 0
        && d.table[0] == score::held(t)
}

/// Whether one of the commands from `from` to `to` activates a tensor.
pub open spec fn activated(commands: Seq<CommandView>, from: int, to: int, t: TensorView) -> bool {
    exists|j: int| from <= j < to && #[trigger] activates(commands[j], t)
}

/// Whether a step activates nothing but some of these.
spec fn spares_one(step: Step, list: Seq<TensorView>) -> bool {
    step.op == Op::Gelu ==> step.table.len() > 0 && exists|j: int|
        0 <= j < list.len() && step.table[0] == score::held(#[trigger] list[j])
}

/// Whether steps activate nothing but some of these.
#[verifier::opaque]
spec fn spares(steps: Seq<Step>, list: Seq<TensorView>) -> bool {
    forall|i: int| 0 <= i < steps.len() ==> spares_one(#[trigger] steps[i], list)
}

proof fn lemma_spares_more(a: Seq<Step>, b: Seq<Step>, list: Seq<TensorView>)
    requires
        spares(a, list),
        spares(b, list),
    ensures
        spares(a + b, list),
{
    reveal(spares);
    assert forall|i: int| 0 <= i < (a + b).len() implies spares_one(
        #[trigger] (a + b)[i],
        list,
    ) by {
        if i < a.len() {
            assert((a + b)[i] == a[i]);
        } else {
            assert((a + b)[i] == b[i - a.len()]);
        }
    }
}

proof fn lemma_spares_grow(a: Seq<Step>, list: Seq<TensorView>, more: Seq<TensorView>)
    requires
        spares(a, list),
        forall|j: int| 0 <= j < list.len() ==> more.contains(#[trigger] list[j]),
    ensures
        spares(a, more),
{
    reveal(spares);
    assert forall|i: int| 0 <= i < a.len() implies spares_one(#[trigger] a[i], more) by {
        assert(spares_one(a[i], list));
        if a[i].op == Op::Gelu {
            let j = choose|j: int|
                0 <= j < list.len() && a[i].table[0] == score::held(#[trigger] list[j]);
            assert(more.contains(list[j]));
        }
    }
}

/// Steps of other operations activate nothing.
proof fn lemma_spares_none(a: Seq<Step>, list: Seq<TensorView>)
    requires
        forall|i: int| 0 <= i < a.len() ==> (#[trigger] a[i]).op != Op::Gelu,
    ensures
        spares(a, list),
{
    reveal(spares);
}

proof fn lemma_gathers_spare(
    conv: crate::gpu::stages::GpuConv,
    x: TensorView,
    room: TensorView,
    rows: usize,
    time: usize,
    row: int,
)
    ensures
        forall|i: int|
            0 <= i < conv_steps::gathers(conv, x, room, rows, time, row).len() ==> (
            #[trigger] conv_steps::gathers(conv, x, room, rows, time, row)[i]).op != Op::Gelu,
    decreases rows - row,
{
    if row < rows {
        let most = crate::gpu::stages::chunk_rows(
            crate::gpu::stages::branch_shape(conv, rows, time).k_pad(),
        );
        let span = if most < rows - row {
            most
        } else {
            rows - row
        };
        lemma_gathers_spare(conv, x, room, rows, time, row + span);
    }
}

proof fn lemma_branch_spares(
    k: Kernels,
    layer: GpuDConvLayer,
    x: TensorView,
    room: TensorView,
    rows: usize,
    time: usize,
    w: Seq<TensorView>,
)
    requires
        w.len() == 6,
    ensures
        spares(conv_steps::branches(k, layer, x, room, rows, time, w), w),
{
    let steps = conv_steps::branches(k, layer, x, room, rows, time, w);
    lemma_gathers_spare(layer.conv1, x, room, rows, time, 0);
    reveal(spares);
    assert forall|i: int| 0 <= i < steps.len() implies spares_one(#[trigger] steps[i], w) by {
        if steps[i].op == Op::Gelu {
            assert(steps[i] == score::activate(w[1]));
            assert(steps[i].table[0] == score::held(w[1]));
        }
    }
}

proof fn lemma_branches_spare(
    k: Kernels,
    layers: Seq<GpuDConvLayer>,
    rows: usize,
    time: usize,
    c: BranchCourse,
    n: nat,
    all: nat,
)
    requires
        n <= all,
        is_led(all, c),
    ensures
        spares(
            conv_steps::branch_steps(k, layers, rows, time, c, n),
            conv_steps::branch_made(c, n),
        ),
    decreases n,
{
    if n == 0 {
        lemma_spares_none(
            conv_steps::branch_steps(k, layers, rows, time, c, 0),
            conv_steps::branch_made(c, 0),
        );
    } else {
        let m = (n - 1) as nat;
        lemma_branches_spare(k, layers, rows, time, c, m, all);
        assert(c.w[m as int].len() == 6);
        let w = c.w[m as int];
        lemma_branch_spares(
            k,
            layers[m as int],
            c.x[m as int],
            c.rooms[m as int],
            rows,
            time,
            w,
        );
        let a = conv_steps::branch_steps(k, layers, rows, time, c, m);
        let b = conv_steps::branches(
            k,
            layers[m as int],
            c.x[m as int],
            c.rooms[m as int],
            rows,
            time,
            w,
        );
        let la = conv_steps::branch_made(c, m);
        let list = conv_steps::branch_made(c, n);
        assert forall|j: int| 0 <= j < la.len() implies list.contains(#[trigger] la[j]) by {
            assert(list[j] == la[j]);
        }
        assert forall|j: int| 0 <= j < w.len() implies list.contains(#[trigger] w[j]) by {
            assert(list[la.len() + j] == w[j]);
        }
        lemma_spares_grow(a, la, list);
        lemma_spares_grow(b, w, list);
        lemma_spares_more(a, b, list);
    }
}

proof fn lemma_images_spare(
    conv: crate::gpu::stages::GpuConvT,
    padded: TensorView,
    taps: TensorView,
    out: TensorView,
    shape: crate::gpu::shapes::Col2ImShape,
    n: nat,
)
    ensures
        forall|i: int|
            0 <= i < conv_steps::upsamples_images(conv, padded, taps, out, shape, n).len() ==> (
            #[trigger] conv_steps::upsamples_images(conv, padded, taps, out, shape, n)[i]).op
                != Op::Gelu,
    decreases n,
{
    if n > 0 {
        lemma_images_spare(conv, padded, taps, out, shape, (n - 1) as nat);
    }
}

/// A spectrogram layer activates its branch's tensors, and its result but in the last.
proof fn lemma_bins_spare(
    k: Kernels,
    layer: GpuDec,
    x: TensorView,
    skip: TensorView,
    stride: usize,
    batch: usize,
    c: LayerCourse,
    last: bool,
)
    requires
        is_led(layer.dconv.layers@.len(), c.branch),
    ensures
        spares(
            decodes_bins(k, layer, x, skip, stride, batch, c, last),
            if last {
                conv_steps::branch_made(c.branch, layer.dconv.layers@.len())
            } else {
                conv_steps::branch_made(c.branch, layer.dconv.layers@.len()).push(c.w[7])
            },
        ),
{
    reveal(decodes_bins);
    let n = layer.dconv.layers@.len();
    let f = x.shape[2];
    let t = x.shape[3];
    let rows = (batch * f) as usize;
    let oc = layer.conv_tr.out_channels;
    let shape = crate::gpu::shapes::Col2ImShape {
        batch,
        in_channels: layer.conv_tr.in_channels,
        out_channels: oc,
        in_h: f,
        in_w: t,
        kernel: layer.conv_tr.kernel,
        stride: (stride, 1),
    };
    let middle = conv_steps::branch_steps(k, layer.dconv.layers@, rows, t, c.branch, n);
    let made = conv_steps::branch_made(c.branch, n);
    let list = if last {
        made
    } else {
        made.push(c.w[7])
    };
    lemma_branches_spare(k, layer.dconv.layers@, rows, t, c.branch, n, n);
    assert forall|j: int| 0 <= j < made.len() implies list.contains(#[trigger] made[j]) by {
        assert(list[j] == made[j]);
    }
    lemma_spares_grow(middle, made, list);
    lemma_images_spare(layer.conv_tr, c.w[5], c.w[6], c.w[4], shape, batch as nat);
    let steps = decodes_bins(k, layer, x, skip, stride, batch, c, last);
    reveal(spares);
    assert forall|i: int| 0 <= i < steps.len() implies spares_one(#[trigger] steps[i], list) by {
        if steps[i].op == Op::Gelu && !middle.contains(steps[i]) {
            assert(!last);
            assert(steps[i] == score::activate(c.w[7]));
            assert(list[made.len() as int] == c.w[7]);
            assert(steps[i].table[0] == score::held(list[made.len() as int]));
        } else if middle.contains(steps[i]) {
            let j = choose|j: int| 0 <= j < middle.len() && middle[j] == steps[i];
            assert(spares_one(middle[j], list));
        }
    }
}

/// A waveform layer activates its branch's tensors, and its result but in the last.
proof fn lemma_samples_spare(
    k: Kernels,
    layer: GpuDec,
    x: TensorView,
    skip: TensorView,
    stride: usize,
    batch: usize,
    length: usize,
    c: LayerCourse,
    last: bool,
)
    requires
        is_led(layer.dconv.layers@.len(), c.branch),
    ensures
        spares(
            decodes_samples(k, layer, x, skip, stride, batch, length, c, last),
            if last {
                conv_steps::branch_made(c.branch, layer.dconv.layers@.len())
            } else {
                conv_steps::branch_made(c.branch, layer.dconv.layers@.len()).push(c.w[5])
            },
        ),
{
    reveal(decodes_samples);
    let n = layer.dconv.layers@.len();
    let samples = x.shape[2];
    let shape = crate::gpu::shapes::Col2ImShape {
        batch,
        in_channels: layer.conv_tr.in_channels,
        out_channels: layer.conv_tr.out_channels,
        in_h: 1,
        in_w: samples,
        kernel: (1, layer.conv_tr.kernel.1),
        stride: (1, stride),
    };
    let middle = conv_steps::branch_steps(k, layer.dconv.layers@, batch, samples, c.branch, n);
    let made = conv_steps::branch_made(c.branch, n);
    let list = if last {
        made
    } else {
        made.push(c.w[5])
    };
    lemma_branches_spare(k, layer.dconv.layers@, batch, samples, c.branch, n, n);
    assert forall|j: int| 0 <= j < made.len() implies list.contains(#[trigger] made[j]) by {
        assert(list[j] == made[j]);
    }
    lemma_spares_grow(middle, made, list);
    lemma_images_spare(layer.conv_tr, c.w[3], c.w[4], c.w[2], shape, batch as nat);
    let steps = decodes_samples(k, layer, x, skip, stride, batch, length, c, last);
    reveal(spares);
    assert forall|i: int| 0 <= i < steps.len() implies spares_one(#[trigger] steps[i], list) by {
        if steps[i].op == Op::Gelu && !middle.contains(steps[i]) {
            assert(!last);
            assert(steps[i] == score::activate(c.w[5]));
            assert(list[made.len() as int] == c.w[5]);
            assert(steps[i].table[0] == score::held(list[made.len() as int]));
        } else if middle.contains(steps[i]) {
            let j = choose|j: int| 0 <= j < middle.len() && middle[j] == steps[i];
            assert(spares_one(middle[j], list));
        }
    }
}

/// What a launch in a stretch activates is among what its steps may.
proof fn lemma_activates_among(
    commands: Seq<CommandView>,
    from: int,
    to: int,
    steps: Seq<Step>,
    list: Seq<TensorView>,
    p: int,
    t: TensorView,
) -> (j: int)
    requires
        0 <= from <= p < to <= commands.len(),
        score::score(commands.subrange(from, to)) == steps,
        spares(steps, list),
        activates(commands[p], t),
    ensures
        0 <= j < list.len(),
        list[j].buffer == t.buffer,
{
    reveal(spares);
    let part = commands.subrange(from, to);
    assert(part[p - from] == commands[p]);
    let q = score::lemma_said(part, p - from);
    match commands[p] {
        CommandView::Dispatch(d) => {
            assert(steps[q] == (Step { op: Op::Gelu, table: d.table }));
        },
        _ => {},
    }
    assert(spares_one(steps[q], list));
    choose|j: int| 0 <= j < list.len() && steps[q].table[0] == score::held(#[trigger] list[j])
}

/// A stretch whose steps end in an activation holds that launch.
proof fn lemma_ends_activated(
    commands: Seq<CommandView>,
    from: int,
    to: int,
    steps: Seq<Step>,
    t: TensorView,
) -> (p: int)
    requires
        0 <= from <= to <= commands.len(),
        score::score(commands.subrange(from, to)) == steps,
        steps.len() > 0,
        steps.last() == score::activate(t),
    ensures
        from <= p < to,
        activates(commands[p], t),
{
    let part = commands.subrange(from, to);
    let i = score::lemma_heard(part, steps.len() - 1);
    let c = part[i];
    assert(score::sound(c)[0] == score::activate(t));
    match c {
        CommandView::Dispatch(d) => {
            assert(score::op_of(d.kernel) == Op::Gelu);
            assert(d.table == score::activate(t).table);
        },
        _ => {},
    }
    from + i
}

/// Layers stand one behind the other.
proof fn lemma_in_order(
    commands: Seq<CommandView>,
    from: int,
    to: int,
    k: Kernels,
    saved: SavedView,
    decoder: Seq<GpuDec>,
    tdecoder: Seq<GpuDec>,
    stride: usize,
    batch: usize,
    depth: nat,
    n: nat,
    c: DecoderCourse,
    i: int,
    j: int,
)
    requires
        decodes(commands, from, to, k, saved, decoder, tdecoder, stride, batch, depth, n, c),
        0 <= i <= j <= n,
    ensures
        from <= c.marks[i] <= c.marks[j] <= to,
    decreases j - i,
{
    if i < j {
        assert(
            decodes_at(commands, from, to, k, saved, decoder, tdecoder, stride, batch, depth, c, i)
        );
        lemma_in_order(
            commands,
            from,
            to,
            k,
            saved,
            decoder,
            tdecoder,
            stride,
            batch,
            depth,
            n,
            c,
            i + 1,
            j,
        );
    } else if i < n {
        assert(
            decodes_at(commands, from, to, k, saved, decoder, tdecoder, stride, batch, depth, c, i)
        );
    } else if n > 0 {
        assert(
            decodes_at(
                commands,
                from,
                to,
                k,
                saved,
                decoder,
                tdecoder,
                stride,
                batch,
                depth,
                c,
                n - 1,
            )
        );
    }
}

/// Every command belongs to a layer.
proof fn lemma_belongs(
    commands: Seq<CommandView>,
    from: int,
    to: int,
    k: Kernels,
    saved: SavedView,
    decoder: Seq<GpuDec>,
    tdecoder: Seq<GpuDec>,
    stride: usize,
    batch: usize,
    depth: nat,
    n: nat,
    c: DecoderCourse,
    p: int,
    m: nat,
) -> (i: int)
    requires
        decodes(commands, from, to, k, saved, decoder, tdecoder, stride, batch, depth, n, c),
        m <= n,
        from <= p < c.marks[m as int],
    ensures
        0 <= i < m,
        c.marks[i] <= p < c.marks[i + 1],
    decreases m,
{
    if m == 0 {
        0
    } else if c.marks[m - 1] <= p {
        m - 1
    } else {
        lemma_belongs(
            commands,
            from,
            to,
            k,
            saved,
            decoder,
            tdecoder,
            stride,
            batch,
            depth,
            n,
            c,
            p,
            (m - 1) as nat,
        )
    }
}

/// In a pass through both decoders of `depth` layers, the cropped result of every layer
/// `i` below `depth - 1` is activated, and that of layer `depth - 1` never is, for either
/// branch.
pub proof fn law_every_decoder_layer_but_the_last_is_activated(
    k: Kernels,
    s: Plan,
    scratch: TensorView,
    x: TensorView,
    xt: TensorView,
    saved: SavedView,
    decoder: Seq<GpuDec>,
    tdecoder: Seq<GpuDec>,
    stride: usize,
    batch: usize,
    depth: nat,
) -> (c: DecoderCourse)
    ensures
        ({
            let (r, room, y, yt) = decoder::layers_plan(
            k,
            s,
            scratch,
            x,
            xt,
            saved,
            decoder,
            tdecoder,
            stride,
            batch,
            depth,
            depth,
        );
            let from = s.commands.len() as int;
            let to = r.commands.len() as int;
            r.fault is None && to <= usize::MAX ==> {
                &&& decodes(
                    r.commands,
                    from,
                    to,
                    k,
                    saved,
                    decoder,
                    tdecoder,
                    stride,
                    batch,
                    depth,
                    depth,
                    c,
                )
                &&& forall|i: int|
                    0 <= i < depth ==> {
                        &&& activated(r.commands, from, to, (#[trigger] c.layers[i]).w[7])
                            <==> i < depth - 1
                        &&& activated(r.commands, from, to, c.layers_t[i].w[5]) <==> i
                            < depth - 1
                    }
                &&& depth > 0 ==> y == c.layers[depth - 1].w[7] && yt == c.layers_t[depth
                    - 1].w[5]
            }
        }),
{
    let c = law_every_decoder_layer_applies_its_own_weights(
        k,
        s,
        scratch,
        x,
        xt,
        saved,
        decoder,
        tdecoder,
        stride,
        batch,
        depth,
        depth,
    );
    let (r, room, y, yt) = decoder::layers_plan(
            k,
            s,
            scratch,
            x,
            xt,
            saved,
            decoder,
            tdecoder,
            stride,
            batch,
            depth,
            depth,
        );
    let from = s.commands.len() as int;
    let to = r.commands.len() as int;
    if r.fault is None && to <= usize::MAX {
        if depth > 0 {
            assert(
                decodes_at(
                    r.commands,
                    from,
                    to,
                    k,
                    saved,
                    decoder,
                    tdecoder,
                    stride,
                    batch,
                    depth,
                    c,
                    depth - 1,
                )
            );
        }
        assert forall|i: int| 0 <= i < depth implies {
            &&& activated(r.commands, from, to, (#[trigger] c.layers[i]).w[7]) <==> i < depth - 1
            &&& activated(r.commands, from, to, c.layers_t[i].w[5]) <==> i < depth - 1
        } by {
            assert(
                decodes_at(
                    r.commands,
                    from,
                    to,
                    k,
                    saved,
                    decoder,
                    tdecoder,
                    stride,
                    batch,
                    depth,
                    c,
                    i,
                )
            );
            if i < depth - 1 {
                lemma_layer_activated(
                    r.commands,
                    from,
                    to,
                    k,
                    saved,
                    decoder,
                    tdecoder,
                    stride,
                    batch,
                    depth,
                    c,
                    i,
                );
            } else {
                assert(makes_at(s, decoder, tdecoder, c, i));
                let out = c.layers[i].w[7];
                let out_t = c.layers_t[i].w[5];
                assert forall|p: int|
                    #![trigger activates(r.commands[p], out)]
                    #![trigger activates(r.commands[p], out_t)]
                    from <= p < to implies !activates(r.commands[p], out) && !activates(
                    r.commands[p],
                    out_t,
                ) by {
                    let j = lemma_belongs(
                        r.commands,
                        from,
                        to,
                        k,
                        saved,
                        decoder,
                        tdecoder,
                        stride,
                        batch,
                        depth,
                        depth,
                        c,
                        p,
                        depth,
                    );
                    assert(
                        decodes_at(
                            r.commands,
                            from,
                            to,
                            k,
                            saved,
                            decoder,
                            tdecoder,
                            stride,
                            batch,
                            depth,
                            c,
                            j,
                        )
                    );
                    assert(makes_at(s, decoder, tdecoder, c, j));
                    lemma_in_order(
                        r.commands,
                        from,
                        to,
                        k,
                        saved,
                        decoder,
                        tdecoder,
                        stride,
                        batch,
                        depth,
                        depth,
                        c,
                        j + 1,
                        depth as int,
                    );
                    if j < i {
                        lemma_in_order(
                            r.commands,
                            from,
                            to,
                            k,
                            saved,
                            decoder,
                            tdecoder,
                            stride,
                            batch,
                            depth,
                            depth,
                            c,
                            j + 1,
                            i,
                        );
                    }
                    lemma_last_spared(
                        s,
                        r.commands,
                        from,
                        to,
                        k,
                        saved,
                        decoder,
                        tdecoder,
                        stride,
                        batch,
                        depth,
                        c,
                        i,
                        j,
                        p,
                    );
                }
            }
        }
    }
    c
}

proof fn lemma_layer_activated(
    commands: Seq<CommandView>,
    from: int,
    to: int,
    k: Kernels,
    saved: SavedView,
    decoder: Seq<GpuDec>,
    tdecoder: Seq<GpuDec>,
    stride: usize,
    batch: usize,
    depth: nat,
    c: DecoderCourse,
    i: int,
)
    requires
        0 <= from <= to <= commands.len(),
        i < depth - 1,
        decodes_at(commands, from, to, k, saved, decoder, tdecoder, stride, batch, depth, c, i),
    ensures
        activated(commands, from, to, c.layers[i].w[7]),
        activated(commands, from, to, c.layers_t[i].w[5]),
{
    reveal(decodes_bins);
    reveal(decodes_samples);
    let a = score::score(commands.subrange(c.marks[i], c.mids[i]));
    let b = score::score(commands.subrange(c.mids[i], c.marks[i + 1]));
    assert(a.last() == score::activate(c.layers[i].w[7]));
    assert(b.last() == score::activate(c.layers_t[i].w[5]));
    let p = lemma_ends_activated(commands, c.marks[i], c.mids[i], a, c.layers[i].w[7]);
    let q = lemma_ends_activated(commands, c.mids[i], c.marks[i + 1], b, c.layers_t[i].w[5]);
    assert(activates(commands[p], c.layers[i].w[7]));
    assert(activates(commands[q], c.layers_t[i].w[5]));
}

/// Nothing activates the last results.
proof fn lemma_last_spared(
    s: Plan,
    commands: Seq<CommandView>,
    from: int,
    to: int,
    k: Kernels,
    saved: SavedView,
    decoder: Seq<GpuDec>,
    tdecoder: Seq<GpuDec>,
    stride: usize,
    batch: usize,
    depth: nat,
    c: DecoderCourse,
    i: int,
    j: int,
    p: int,
)
    requires
        0 <= from <= to <= commands.len(),
        i == depth - 1,
        0 <= j <= i,
        decodes_at(commands, from, to, k, saved, decoder, tdecoder, stride, batch, depth, c, i),
        decodes_at(commands, from, to, k, saved, decoder, tdecoder, stride, batch, depth, c, j),
        makes_at(s, decoder, tdecoder, c, i),
        makes_at(s, decoder, tdecoder, c, j),
        j < i ==> c.marks[j + 1] <= c.marks[i],
        c.marks[j] <= p < c.marks[j + 1],
    ensures
        !activates(commands[p], c.layers[i].w[7]),
        !activates(commands[p], c.layers_t[i].w[5]),
{
    let out = c.layers[i].w[7];
    let out_t = c.layers_t[i].w[5];
    let layer = decoder[j];
    let layer_t = tdecoder[j];
    let d = c.layers[j];
    let dt = c.layers_t[j];
    let last = j == depth - 1;
    let ends = bins_made(decoder[i], c.layers[i]);
    let ends_t = samples_made(tdecoder[i], c.layers_t[i]);
    assert(ends[ends.len() - 1] == out);
    assert(ends_t[ends_t.len() - 1] == out_t);
    let list = bins_made(layer, d);
    let list_t = samples_made(layer_t, dt);
    let own = conv_steps::branch_made(d.branch, layer.dconv.layers@.len());
    let own_t = conv_steps::branch_made(dt.branch, layer_t.dconv.layers@.len());
    if p < c.mids[j] {
        let steps = score::score(commands.subrange(c.marks[j], c.mids[j]));
        lemma_bins_spare(
            k,
            layer,
            c.x[j],
            saved.freq[saved.freq.len() - 1 - j],
            stride,
            batch,
            d,
            last,
        );
        let may = if last {
            own
        } else {
            own.push(d.w[7])
        };
        if activates(commands[p], out) {
            let q = lemma_activates_among(
                commands,
                c.marks[j],
                c.mids[j],
                steps,
                may,
                p,
                out,
            );
            if q < own.len() {
                assert(list[3 + q] == own[q]);
            } else {
                assert(list[list.len() - 1] == d.w[7]);
            }
        }
        if activates(commands[p], out_t) {
            let q = lemma_activates_among(
                commands,
                c.marks[j],
                c.mids[j],
                steps,
                may,
                p,
                out_t,
            );
            if q < own.len() {
                assert(list[3 + q] == own[q]);
            } else {
                assert(list[list.len() - 1] == d.w[7]);
            }
        }
    } else {
        let steps = score::score(commands.subrange(c.mids[j], c.marks[j + 1]));
        lemma_samples_spare(
            k,
            layer_t,
            c.xt[j],
            saved.time[saved.time.len() - 1 - j],
            stride,
            batch,
            saved.lengths[saved.lengths.len() - 1 - j],
            dt,
            last,
        );
        let may = if last {
            own_t
        } else {
            own_t.push(dt.w[5])
        };
        if activates(commands[p], out) {
            let q = lemma_activates_among(
                commands,
                c.mids[j],
                c.marks[j + 1],
                steps,
                may,
                p,
                out,
            );
            if q < own_t.len() {
                assert(list_t[2 + q] == own_t[q]);
            } else {
                assert(list_t[list_t.len() - 1] == dt.w[5]);
            }
        }
        if activates(commands[p], out_t) {
            let q = lemma_activates_among(
                commands,
                c.mids[j],
                c.marks[j + 1],
                steps,
                may,
                p,
                out_t,
            );
            if q < own_t.len() {
                assert(list_t[2 + q] == own_t[q]);
            } else {
                assert(list_t[list_t.len() - 1] == dt.w[5]);
            }
        }
    }
}

} // verus!
