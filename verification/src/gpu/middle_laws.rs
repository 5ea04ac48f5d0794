//! What the middle of the model does with a pass: the channels up, the transformer's way
//! in, its pairs of layers, its way out, and the channels down.

use vstd::prelude::*;

use crate::gpu::arith;
use crate::gpu::conv_steps;
use crate::gpu::htdemucs;
use crate::gpu::htdemucs::{GpuWeights, BOTTLENECK_CHANNELS, TRANSFORMER_CHANNELS};
use crate::gpu::kernels::Kernels;
use crate::gpu::recorder;
use crate::gpu::recorder::{CommandView, HostInput, Plan};
use crate::gpu::score;
use crate::gpu::score::Step;
use crate::gpu::shaders;
use crate::gpu::stages;
use crate::gpu::stages::GpuConv;
use crate::gpu::tensor::TensorView;
use crate::gpu::transformer;
use crate::gpu::transformer::{Bottleneck, GpuTransformer, Heads, POSITION_FEATURES};
use crate::gpu::transformer_laws;
use crate::gpu::transformer_laws::Course;
use crate::gpu::transformer_steps;
use crate::gpu::transformer_steps::{norms_rows, seen_as};

verus! {

/// The way in: the spectrogram's tokens run frame by frame, the waveform's sample by
/// sample; each is normalised by its own norm, and its positions are added. The tensors
/// are the spectrogram with its bins in front, its tokens, their norm, their positions,
/// and the waveform's tokens, their norm and their positions.
pub open spec fn enters(
    t: GpuTransformer,
    freq: TensorView,
    time: TensorView,
    w: Seq<TensorView>,
) -> Seq<Step> {
    let batch = freq.shape[0];
    let channels = freq.shape[1];
    let bins = freq.shape[2];
    let frames = freq.shape[3];
    let rows = (batch * (bins * frames)) as usize;
    let rows_t = (batch * time.shape[2]) as usize;
    let folded = (bins * channels) as usize;
    seq![
        score::exchange(freq, w[0], batch as int, channels as int, bins as int, frames as int),
    ] + seq![score::exchange(w[0], w[1], batch as int, folded as int, frames as int, 1)] + seq![
        norms_rows(seen_as(w[1], seq![rows, t.norm_in.dim]), t.norm_in, w[2], rows),
    ] + seq![score::sum_into(w[2], w[3])] + seq![
        score::exchange(
            time,
            w[4],
            batch as int,
            time.shape[1] as int,
            time.shape[2] as int,
            1,
        ),
    ] + seq![norms_rows(w[4], t.norm_in_t, w[5], rows_t)] + seq![score::sum_into(w[5], w[6])]
}

/// The way out: the tokens are put back bin by bin, and both branches take the shapes they
/// came in with. The tensors are the spectrogram's tokens by bins, the spectrogram and the
/// waveform.
pub open spec fn leaves(
    dim: usize,
    x: TensorView,
    xt: TensorView,
    freq: TensorView,
    time: TensorView,
    w: Seq<TensorView>,
) -> Seq<Step> {
    let batch = freq.shape[0];
    let bins = freq.shape[2];
    let frames = freq.shape[3];
    seq![
        score::exchange(
            recorder::reshaped(x, seq![batch, frames, bins, dim]),
            w[0],
            batch as int,
            frames as int,
            bins as int,
            dim as int,
        ),
    ] + seq![
        score::exchange(
            w[0],
            w[1],
            batch as int,
            (bins * frames) as usize as int,
            dim as int,
            1,
        ),
    ] + seq![
        score::exchange(xt, w[2], batch as int, time.shape[2] as int, dim as int, 1),
    ]
}


/// Whether commands hold a buffer that the host fills.
pub open spec fn supplied(commands: Seq<CommandView>, t: TensorView, what: HostInput) -> bool {
    &&& 0 <= t.buffer.index < commands.len()
    &&& commands[t.buffer.index as int] matches CommandView::Input { input, .. } && input == what
}

/// Whether what was recorded stays.
spec fn kept(s: Plan, r: Plan) -> bool {
    r.fault is None ==> {
        &&& s.fault is None
        &&& s.commands.len() <= r.commands.len()
        &&& forall|i: int| 0 <= i < s.commands.len() ==> r.commands[i] == #[trigger] s.commands[i]
    }
}

proof fn lemma_kept(s: Plan, m: Plan, r: Plan, steps: Seq<Step>, list: Seq<TensorView>)
    requires
        s == m || kept(s, m),
        score::runs(m, r, steps, list),
    ensures
        kept(s, r),
{
    if r.fault is None {
        score::lemma_spent(m, r, steps, list);
        assert forall|i: int| 0 <= i < s.commands.len() implies r.commands[i]
            == #[trigger] s.commands[i] by {
            assert(m.commands[i] == s.commands[i]);
            assert(r.commands.take(m.commands.len() as int)[i] == r.commands[i]);
        }
    }
}

proof fn lemma_supplied(
    s: Plan,
    r: Plan,
    shape: Seq<usize>,
    what: HostInput,
    label: Seq<char>,
)
    requires
        r == s.input(shape, what, true, label),
    ensures
        r.fault is None && r.commands.len() <= usize::MAX ==> supplied(
            r.commands,
            s.fresh(shape),
            what,
        ),
{
}

#[verifier::rlimit(100)]
proof fn lemma_enters(
    k: Kernels,
    s: Plan,
    t: GpuTransformer,
    freq: TensorView,
    time: TensorView,
) -> (w: Seq<TensorView>)
    ensures
        w.len() == 7,
        ({
            let (r, x, xt) = transformer::enter_plan(k, s, t, freq, time);
            &&& x == w[2] && xt == w[5]
            &&& score::runs(s, r, enters(t, freq, time, w), w)
            &&& r.fault is None && r.commands.len() <= usize::MAX ==> {
                &&& supplied(r.commands, w[3], HostInput::SpectrogramPositions)
                &&& supplied(r.commands, w[6], HostInput::WaveformPositions)
            }
        }),
{
    reveal(transformer::enter_plan);
    let a0 = score::silence();
    let l0 = score::nothing();
    score::lemma_stay(s);
    let b = Bottleneck::of(freq, time);
    let dim = t.norm_in.dim;
    let folded = (b.bins * b.channels) as usize;
    let rows = b.rows() as usize;
    let rows_t = b.rows_t() as usize;
    let places = seq![1usize, b.tokens() as usize, POSITION_FEATURES];
    let places_t = seq![1usize, b.tokens_t, POSITION_FEATURES];
    let swap = seq![b.batch, b.bins, b.channels, b.frames];
    let lined = seq![b.batch, b.frames, folded];
    let flat = seq![rows, dim];
    let flat_t = seq![rows_t, dim];
    let w0 = s.fresh(swap);
    let t0 = s.tensor(swap, "xt.spec.step1"@);
    score::lemma_tensor(s, swap, "xt.spec.step1"@);
    score::lemma_made(s, s, t0, a0, l0, w0);
    let l1 = l0.push(w0);
    let s1 = k.transpose_plan(t0, freq, w0, b.batch, b.channels, b.bins, b.frames);
    score::lemma_exchange(k, t0, freq, w0, b.batch, b.channels, b.bins, b.frames);
    score::lemma_step(
        s,
        t0,
        s1,
        a0,
        l1,
        seq![
            score::exchange(
                freq,
                w0,
                b.batch as int,
                b.channels as int,
                b.bins as int,
                b.frames as int,
            ),
        ],
    );
    let a2 = a0 + seq![
        score::exchange(
            freq,
            w0,
            b.batch as int,
            b.channels as int,
            b.bins as int,
            b.frames as int,
        ),
    ];
    assert(
        a2 =~= seq![
            score::exchange(
                freq,
                w0,
                b.batch as int,
                b.channels as int,
                b.bins as int,
                b.frames as int,
            ),
        ]
    );
    let w1 = s1.fresh(lined);
    let t1 = s1.tensor(lined, "xt.spec.tokens"@);
    score::lemma_tensor(s1, lined, "xt.spec.tokens"@);
    score::lemma_made(s, s1, t1, a2, l1, w1);
    let l3 = l1.push(w1);
    let m1 = k.transpose_plan(t1, w0, w1, b.batch, folded, b.frames, 1);
    score::lemma_exchange(k, t1, w0, w1, b.batch, folded, b.frames, 1);
    score::lemma_step(
        s,
        t1,
        m1,
        a2,
        l3,
        seq![score::exchange(w0, w1, b.batch as int, folded as int, b.frames as int, 1)],
    );
    let a4 = a2 + seq![score::exchange(w0, w1, b.batch as int, folded as int, b.frames as int, 1)];
    let s2 = m1.reshape(w1, flat);
    score::lemma_reshape(m1, w1, flat);
    score::lemma_silent(s, m1, s2, a4, l3);
    let tokens = recorder::reshaped(w1, flat);
    assert(tokens == seen_as(w1, flat));
    let w2 = s2.fresh(flat);
    let t2 = s2.tensor(flat, "xt.spec.normin"@);
    score::lemma_tensor(s2, flat, "xt.spec.normin"@);
    score::lemma_made(s, s2, t2, a4, l3, w2);
    let l5 = l3.push(w2);
    let s3 = stages::layer_norm_stage_plan(k, t2, tokens, w2, t.norm_in, rows);
    transformer_steps::lemma_norms_rows(k, t2, tokens, t.norm_in, w2, rows);
    score::lemma_step(s, t2, s3, a4, l5, seq![norms_rows(tokens, t.norm_in, w2, rows)]);
    let a6 = a4 + seq![norms_rows(tokens, t.norm_in, w2, rows)];
    let w3 = s3.fresh(places);
    let t3 = s3.input(places, HostInput::SpectrogramPositions, true, "xt.pos.spec"@);
    score::lemma_input(s3, places, HostInput::SpectrogramPositions, true, "xt.pos.spec"@);
    score::lemma_made(s, s3, t3, a6, l5, w3);
    let l7 = l5.push(w3);
    let s4 = k.add_in_place_plan(t3, w2, w3);
    score::lemma_sum_into(k, t3, w2, w3);
    score::lemma_step(s, t3, s4, a6, l7, seq![score::sum_into(w2, w3)]);
    let a8 = a6 + seq![score::sum_into(w2, w3)];
    let w4 = s4.fresh(seq![b.batch, b.tokens_t, dim]);
    let t4 = s4.tensor(seq![b.batch, b.tokens_t, dim], "xt.time.tokens"@);
    score::lemma_tensor(s4, seq![b.batch, b.tokens_t, dim], "xt.time.tokens"@);
    score::lemma_made(s, s4, t4, a8, l7, w4);
    let l9 = l7.push(w4);
    let s5 = k.transpose_plan(t4, time, w4, b.batch, b.channels_t, b.tokens_t, 1);
    score::lemma_exchange(k, t4, time, w4, b.batch, b.channels_t, b.tokens_t, 1);
    score::lemma_step(
        s,
        t4,
        s5,
        a8,
        l9,
        seq![score::exchange(time, w4, b.batch as int, b.channels_t as int, b.tokens_t as int, 1)],
    );
    let a10 = a8 + seq![
        score::exchange(time, w4, b.batch as int, b.channels_t as int, b.tokens_t as int, 1),
    ];
    let w5 = s5.fresh(flat_t);
    let t5 = s5.tensor(flat_t, "xt.time.normin"@);
    score::lemma_tensor(s5, flat_t, "xt.time.normin"@);
    score::lemma_made(s, s5, t5, a10, l9, w5);
    let l11 = l9.push(w5);
    let s6 = stages::layer_norm_stage_plan(k, t5, w4, w5, t.norm_in_t, rows_t);
    transformer_steps::lemma_norms_rows(k, t5, w4, t.norm_in_t, w5, rows_t);
    score::lemma_step(s, t5, s6, a10, l11, seq![norms_rows(w4, t.norm_in_t, w5, rows_t)]);
    let a12 = a10 + seq![norms_rows(w4, t.norm_in_t, w5, rows_t)];
    let w6 = s6.fresh(places_t);
    let t6 = s6.input(places_t, HostInput::WaveformPositions, true, "xt.pos.time"@);
    score::lemma_input(s6, places_t, HostInput::WaveformPositions, true, "xt.pos.time"@);
    score::lemma_made(s, s6, t6, a12, l11, w6);
    let l13 = l11.push(w6);
    let s7 = k.add_in_place_plan(t6, w5, w6);
    score::lemma_sum_into(k, t6, w5, w6);
    score::lemma_step(s, t6, s7, a12, l13, seq![score::sum_into(w5, w6)]);
    let a14 = a12 + seq![score::sum_into(w5, w6)];
    let q1 = s7.trace("crosstransformer.norm_in"@, w2);
    score::lemma_trace(s7, "crosstransformer.norm_in"@, "crosstransformer.norm_in"@, w2);
    score::lemma_silent(s, s7, q1, a14, l13);
    let q2 = q1.trace("crosstransformer.norm_in_t"@, w5);
    score::lemma_trace(q1, "crosstransformer.norm_in_t"@, "crosstransformer.norm_in_t"@, w5);
    score::lemma_silent(s, q1, q2, a14, l13);
    let w = seq![w0, w1, w2, w3, w4, w5, w6];
    assert(a14 =~= enters(t, freq, time, w));
    assert(l13 =~= w);
    lemma_supplied(s3, t3, places, HostInput::SpectrogramPositions, "xt.pos.spec"@);
    lemma_supplied(s6, t6, places_t, HostInput::WaveformPositions, "xt.pos.time"@);
    score::lemma_stay(t3);
    lemma_kept(t3, t3, s4, seq![score::sum_into(w2, w3)], score::nothing());
    lemma_kept(t3, s4, t4, score::silence(), seq![w4]);
    lemma_kept(
        t3,
        t4,
        s5,
        seq![score::exchange(time, w4, b.batch as int, b.channels_t as int, b.tokens_t as int, 1)],
        score::nothing(),
    );
    lemma_kept(t3, s5, t5, score::silence(), seq![w5]);
    lemma_kept(t3, t5, s6, seq![norms_rows(w4, t.norm_in_t, w5, rows_t)], score::nothing());
    lemma_kept(t3, s6, t6, score::silence(), seq![w6]);
    lemma_kept(t3, t6, s7, seq![score::sum_into(w5, w6)], score::nothing());
    lemma_kept(t3, s7, q1, score::silence(), score::nothing());
    lemma_kept(t3, q1, q2, score::silence(), score::nothing());
    lemma_kept(t6, t6, s7, seq![score::sum_into(w5, w6)], score::nothing());
    lemma_kept(t6, s7, q1, score::silence(), score::nothing());
    lemma_kept(t6, q1, q2, score::silence(), score::nothing());
    w
}


#[verifier::rlimit(100)]
proof fn lemma_leaves(
    k: Kernels,
    s: Plan,
    dim: usize,
    x: TensorView,
    xt: TensorView,
    freq: TensorView,
    time: TensorView,
) -> (w: Seq<TensorView>)
    ensures
        w.len() == 3,
        ({
            let (r, y, yt) = transformer::leave_plan(k, s, dim, x, xt, freq, time);
            &&& y == w[1] && yt == w[2]
            &&& y.shape == freq.shape && yt.shape == time.shape
            &&& score::runs(s, r, leaves(dim, x, xt, freq, time, w), w)
        }),
{
    reveal(transformer::leave_plan);
    let a0 = score::silence();
    let l0 = score::nothing();
    score::lemma_stay(s);
    let b = Bottleneck::of(freq, time);
    let rows = b.rows() as usize;
    let grid = seq![b.batch, b.frames, b.bins, dim];
    let flat = seq![rows, dim];
    let many = b.tokens() as usize;
    let w0 = s.fresh(flat);
    let t0 = s.tensor(flat, "xt.spec.out1"@);
    score::lemma_tensor(s, flat, "xt.spec.out1"@);
    score::lemma_made(s, s, t0, a0, l0, w0);
    let l1 = l0.push(w0);
    let q0 = t0.reshape(x, grid);
    score::lemma_reshape(t0, x, grid);
    score::lemma_silent(s, t0, q0, a0, l1);
    let seen = recorder::reshaped(x, grid);
    let s1 = k.transpose_plan(q0, seen, w0, b.batch, b.frames, b.bins, dim);
    score::lemma_exchange(k, q0, seen, w0, b.batch, b.frames, b.bins, dim);
    score::lemma_step(
        s,
        q0,
        s1,
        a0,
        l1,
        seq![score::exchange(seen, w0, b.batch as int, b.frames as int, b.bins as int, dim as int)],
    );
    let a2 = a0 + seq![
        score::exchange(seen, w0, b.batch as int, b.frames as int, b.bins as int, dim as int),
    ];
    assert(
        a2 =~= seq![
            score::exchange(seen, w0, b.batch as int, b.frames as int, b.bins as int, dim as int),
        ]
    );
    let w1 = s1.fresh(freq.shape);
    let t1 = s1.tensor(freq.shape, "xt.spec.out"@);
    score::lemma_tensor(s1, freq.shape, "xt.spec.out"@);
    score::lemma_made(s, s1, t1, a2, l1, w1);
    let l3 = l1.push(w1);
    let s2 = k.transpose_plan(t1, w0, w1, b.batch, many, dim, 1);
    score::lemma_exchange(k, t1, w0, w1, b.batch, many, dim, 1);
    score::lemma_step(
        s,
        t1,
        s2,
        a2,
        l3,
        seq![score::exchange(w0, w1, b.batch as int, many as int, dim as int, 1)],
    );
    let a4 = a2 + seq![score::exchange(w0, w1, b.batch as int, many as int, dim as int, 1)];
    let w2 = s2.fresh(time.shape);
    let t2 = s2.tensor(time.shape, "xt.time.out"@);
    score::lemma_tensor(s2, time.shape, "xt.time.out"@);
    score::lemma_made(s, s2, t2, a4, l3, w2);
    let l5 = l3.push(w2);
    let s3 = k.transpose_plan(t2, xt, w2, b.batch, b.tokens_t, dim, 1);
    score::lemma_exchange(k, t2, xt, w2, b.batch, b.tokens_t, dim, 1);
    score::lemma_step(
        s,
        t2,
        s3,
        a4,
        l5,
        seq![score::exchange(xt, w2, b.batch as int, b.tokens_t as int, dim as int, 1)],
    );
    let a6 = a4 + seq![score::exchange(xt, w2, b.batch as int, b.tokens_t as int, dim as int, 1)];
    let w = seq![w0, w1, w2];
    assert(a6 =~= leaves(dim, x, xt, freq, time, w));
    assert(l5 =~= w);
    w
}

/// The course of the transformer: the tensors of its way in, the course of its pairs, the
/// tensors of its way out.
pub struct Passage {
    pub entry: Seq<TensorView>,
    pub pairs: Course,
    pub exit: Seq<TensorView>,
}

/// Whether commands from `from` to `to` are the transformer of `n` pairs of layers: the
/// way in, every pair in order, the way out.
pub open spec fn passes(
    commands: Seq<CommandView>,
    from: int,
    to: int,
    heads: Heads,
    t: GpuTransformer,
    n: nat,
    freq: TensorView,
    time: TensorView,
    c: Passage,
) -> bool {
    let batch = freq.shape[0];
    let rows = (batch * (freq.shape[2] * freq.shape[3])) as usize;
    let rows_t = (batch * time.shape[2]) as usize;
    let begin = c.pairs.marks[0];
    let end = c.pairs.marks[n as int];
    &&& c.entry.len() == 7 && c.exit.len() == 3
    &&& from <= begin && begin <= end && end <= to
    &&& score::score(commands.subrange(from, begin)) == enters(t, freq, time, c.entry)
    &&& transformer_laws::follows(
        commands,
        begin,
        end,
        heads,
        t,
        rows,
        rows_t,
        batch,
        n,
        c.pairs,
    )
    &&& c.pairs.x[0] == c.entry[2] && c.pairs.xt[0] == c.entry[5]
    &&& score::score(commands.subrange(end, to)) == leaves(
        t.norm_in.dim,
        c.pairs.x[n as int],
        c.pairs.xt[n as int],
        freq,
        time,
        c.exit,
    )
}

/// A pass through the transformer is its way in, every pair of layers in order, by their
/// own weights, and its way out; both branches come out in the shapes they went in with;
/// and what is added to the tokens is what the host supplies as their positions.
pub proof fn law_the_transformer_is_entered_passed_and_left(
    k: Kernels,
    s: Plan,
    heads: Heads,
    t: GpuTransformer,
    layers: usize,
    freq: TensorView,
    time: TensorView,
) -> (c: Passage)
    ensures
        ({
            let (r, y, yt) = transformer::forward_transformer_plan(
                k,
                s,
                heads,
                t,
                layers,
                freq,
                time,
            );
            r.fault is None ==> {
                &&& passes(
                    r.commands,
                    s.commands.len() as int,
                    r.commands.len() as int,
                    heads,
                    t,
                    layers as nat,
                    freq,
                    time,
                    c,
                )
                &&& y == c.exit[1] && yt == c.exit[2]
                &&& y.shape == freq.shape && yt.shape == time.shape
                &&& s.fault is None && r.id == s.id
                &&& s.commands.len() <= r.commands.len()
                &&& r.commands.take(s.commands.len() as int) == s.commands
                &&& r.commands.len() <= usize::MAX ==> {
                    &&& supplied(r.commands, c.entry[3], HostInput::SpectrogramPositions)
                    &&& supplied(r.commands, c.entry[6], HostInput::WaveformPositions)
                    &&& transformer_laws::makes(s, layers as nat, c.pairs)
                }
            }
        }),
{
    reveal(transformer::forward_transformer_plan);
    let b = Bottleneck::of(freq, time);
    let n = layers as nat;
    let rows = b.rows() as usize;
    let rows_t = b.rows_t() as usize;
    let entry = lemma_enters(k, s, t, freq, time);
    let (s1, x, xt) = transformer::enter_plan(k, s, t, freq, time);
    let pairs = transformer_laws::law_every_pair_applies_its_own_layers(
        k,
        s1,
        heads,
        t,
        x,
        xt,
        rows,
        rows_t,
        b.batch,
        n,
    );
    let (s2, y, yt) = transformer::pairs_plan(
        k,
        s1,
        heads,
        t,
        x,
        xt,
        rows,
        rows_t,
        b.batch,
        n,
    );
    let dim = t.norm_in.dim;
    let exit = lemma_leaves(k, s2, dim, y, yt, freq, time);
    let (r, z, zt) = transformer::leave_plan(k, s2, dim, y, yt, freq, time);
    let c = Passage { entry, pairs, exit };
    if r.fault is None {
        score::lemma_spent(s2, r, leaves(dim, y, yt, freq, time, exit), exit);
        score::lemma_spent(s, s1, enters(t, freq, time, entry), entry);
        let from = s.commands.len() as int;
        let begin = s1.commands.len() as int;
        let end = s2.commands.len() as int;
        let to = r.commands.len() as int;
        lemma_front(s2.commands, r.commands, end);
        lemma_front(s1.commands, s2.commands, begin);
        assert(r.commands.subrange(from, begin) =~= s1.commands.subrange(from, begin));
        assert(r.commands.take(from) =~= s1.commands.take(from));
        assert forall|i: int| 0 <= i < n implies #[trigger] transformer_laws::follows_at(
            r.commands,
            begin,
            end,
            heads,
            t,
            rows,
            rows_t,
            b.batch,
            pairs,
            i,
        ) by {
            assert(transformer_laws::follows_at(
                s2.commands,
                begin,
                end,
                heads,
                t,
                rows,
                rows_t,
                b.batch,
                pairs,
                i,
            ));
            assert(r.commands.subrange(pairs.marks[i], pairs.marks[i + 1])
                =~= s2.commands.subrange(pairs.marks[i], pairs.marks[i + 1]));
        }
        assert(passes(r.commands, from, to, heads, t, n, freq, time, c));
        if to <= usize::MAX {
            assert(supplied(s1.commands, entry[3], HostInput::SpectrogramPositions));
            assert(supplied(s1.commands, entry[6], HostInput::WaveformPositions));
        }
    }
    c
}

/// Commands in front stay what they are.
pub proof fn lemma_front(before: Seq<CommandView>, after: Seq<CommandView>, n: int)
    requires
        n == before.len(),
        n <= after.len(),
        after.take(n) == before,
    ensures
        forall|j: int| 0 <= j < n ==> after[j] == #[trigger] before[j],
        forall|j: int| 0 <= j < n ==> #[trigger] after[j] == before[j],
{
    assert forall|j: int| 0 <= j < n implies #[trigger] after[j] == before[j] by {
        assert(after.take(n)[j] == after[j]);
    }
}


pub proof fn lemma_part(before: Seq<CommandView>, after: Seq<CommandView>, a: int, b: int)
    requires
        before.len() <= after.len(),
        after.take(before.len() as int) == before,
        0 <= a <= b <= before.len(),
    ensures
        after.subrange(a, b) == before.subrange(a, b),
{
    lemma_front(before, after, before.len() as int);
    assert(after.subrange(a, b) =~= before.subrange(a, b));
}

/// What follows the transformer does not change what it was.
proof fn lemma_passes_stays(
    before: Seq<CommandView>,
    after: Seq<CommandView>,
    from: int,
    to: int,
    heads: Heads,
    t: GpuTransformer,
    n: nat,
    freq: TensorView,
    time: TensorView,
    c: Passage,
)
    requires
        0 <= from,
        to <= before.len() <= after.len(),
        after.take(before.len() as int) == before,
        passes(before, from, to, heads, t, n, freq, time, c),
    ensures
        passes(after, from, to, heads, t, n, freq, time, c),
{
    let batch = freq.shape[0];
    let rows = (batch * (freq.shape[2] * freq.shape[3])) as usize;
    let rows_t = (batch * time.shape[2]) as usize;
    let begin = c.pairs.marks[0];
    let end = c.pairs.marks[n as int];
    lemma_part(before, after, from, begin);
    lemma_part(before, after, end, to);
    assert forall|i: int| 0 <= i < n implies #[trigger] transformer_laws::follows_at(
        after,
        begin,
        end,
        heads,
        t,
        rows,
        rows_t,
        batch,
        c.pairs,
        i,
    ) by {
        assert(transformer_laws::follows_at(
            before,
            begin,
            end,
            heads,
            t,
            rows,
            rows_t,
            batch,
            c.pairs,
            i,
        ));
        lemma_part(before, after, c.pairs.marks[i], c.pairs.marks[i + 1]);
    }
}

// ------------------------------------------------------------------------- middle

/// The course of the middle: where its four convolutions gather and what each gives, the
/// course of the transformer, and where in the pass each part begins.
pub struct MiddleCourse {
    pub rooms: Seq<TensorView>,
    pub up: TensorView,
    pub up_t: TensorView,
    pub passage: Passage,
    pub down: TensorView,
    pub down_t: TensorView,
    pub marks: Seq<int>,
}

/// Whether commands from `from` to `to` are the middle of the model: each branch's channels
/// up by its own convolution of width one, the transformer, each branch's channels down by
/// its own.
pub open spec fn mediates(
    commands: Seq<CommandView>,
    from: int,
    to: int,
    k: Kernels,
    w: GpuWeights,
    heads: Heads,
    n: nat,
    freq: TensorView,
    time: TensorView,
    c: MiddleCourse,
) -> bool {
    let batch = freq.shape[0];
    let f = freq.shape[2];
    let t = freq.shape[3];
    let samples = time.shape[2];
    let flat = (f * t) as usize;
    let inner = TRANSFORMER_CHANNELS;
    let outer = BOTTLENECK_CHANNELS;
    let m = c.marks;
    &&& m.len() == 6 && c.rooms.len() == 4
    &&& m[0] == from && m[0] <= m[1] && m[1] <= m[2] && m[2] <= m[3] && m[3] <= m[4] && m[4]
        <= m[5] && m[5] == to
    &&& score::score(commands.subrange(m[0], m[1])) == conv_steps::convolution_of(
        k,
        w.up_freq,
        recorder::reshaped(freq, seq![batch, outer, 1, flat]),
        c.rooms[0],
        c.up,
    )
    &&& score::score(commands.subrange(m[1], m[2])) == conv_steps::convolution_of(
        k,
        w.up_time,
        recorder::reshaped(time, seq![batch, outer, 1, samples]),
        c.rooms[1],
        c.up_t,
    )
    &&& passes(
        commands,
        m[2],
        m[3],
        heads,
        w.transformer,
        n,
        seen_as(c.up, seq![batch, inner, f, t]),
        seen_as(c.up_t, seq![batch, inner, samples]),
        c.passage,
    )
    &&& score::score(commands.subrange(m[3], m[4])) == conv_steps::convolution_of(
        k,
        w.down_freq,
        recorder::reshaped(c.passage.exit[1], seq![batch, inner, 1, flat]),
        c.rooms[2],
        c.down,
    )
    &&& score::score(commands.subrange(m[4], m[5])) == conv_steps::convolution_of(
        k,
        w.down_time,
        recorder::reshaped(c.passage.exit[2], seq![batch, inner, 1, samples]),
        c.rooms[3],
        c.down_t,
    )
}

/// What follows the middle does not change what it was.
pub proof fn lemma_mediates_stays(
    before: Seq<CommandView>,
    after: Seq<CommandView>,
    from: int,
    to: int,
    k: Kernels,
    w: GpuWeights,
    heads: Heads,
    n: nat,
    freq: TensorView,
    time: TensorView,
    c: MiddleCourse,
)
    requires
        0 <= from,
        to <= before.len() <= after.len(),
        after.take(before.len() as int) == before,
        mediates(before, from, to, k, w, heads, n, freq, time, c),
    ensures
        mediates(after, from, to, k, w, heads, n, freq, time, c),
{
    let m = c.marks;
    let batch = freq.shape[0];
    let inner = TRANSFORMER_CHANNELS;
    lemma_part(before, after, m[0], m[1]);
    lemma_part(before, after, m[1], m[2]);
    lemma_part(before, after, m[3], m[4]);
    lemma_part(before, after, m[4], m[5]);
    lemma_passes_stays(
        before,
        after,
        m[2],
        m[3],
        heads,
        w.transformer,
        n,
        seen_as(c.up, seq![batch, inner, freq.shape[2], freq.shape[3]]),
        seen_as(c.up_t, seq![batch, inner, time.shape[2]]),
        c.passage,
    );
}

/// A convolution of width one over the channels of a flattened plane.
proof fn lemma_sampler(
    k: Kernels,
    s: Plan,
    x: TensorView,
    conv: GpuConv,
    batch: usize,
    channels_in: usize,
    channels_out: usize,
    flat: usize,
    label: Seq<char>,
    scratch_label: Seq<char>,
) -> (room: TensorView)
    ensures
        ({
            let (r, y) = htdemucs::sampler_plan(
                k,
                s,
                x,
                conv,
                batch,
                channels_in,
                channels_out,
                flat,
                label,
                scratch_label,
            );
            &&& y.offset == 0 && y.shape == seq![batch, channels_out, 1, flat]
            &&& score::runs(
                s,
                r,
                conv_steps::convolution_of(
                    k,
                    conv,
                    recorder::reshaped(x, seq![batch, channels_in, 1, flat]),
                    room,
                    y,
                ),
                seq![y],
            )
        }),
{
    reveal(htdemucs::sampler_plan);
    let flat_in = seq![batch, channels_in, 1, flat];
    let flat_out = seq![batch, channels_out, 1, flat];
    let needed = batch * channels_in * arith::padded(flat as int, shaders::BN as int);
    let asked = seq![needed as usize];

    let a0 = score::silence();
    let l0 = score::nothing();
    score::lemma_stay(s);
    let s1 = s.reshape(x, flat_in);
    score::lemma_reshape(s, x, flat_in);
    score::lemma_silent(s, s, s1, a0, l0);
    let y = s1.fresh(flat_out);
    let s2 = s1.tensor(flat_out, label);
    score::lemma_tensor(s1, flat_out, label);
    score::lemma_made(s, s1, s2, a0, l0, y);
    let l1 = l0.push(y);
    let s3 = s2.allocate((4 * needed) as nat, scratch_label);
    score::lemma_allocate(s2, (4 * needed) as nat, scratch_label, asked);
    score::lemma_forget(
        s2,
        s2.allocate((4 * needed) as nat, scratch_label),
        score::silence(),
        seq![s2.fresh(asked)],
    );
    score::lemma_silent(s, s2, s3, a0, l1);
    let scratch = s2.fresh(asked);
    let seen = recorder::reshaped(x, flat_in);
    let (r, room) = stages::conv_stage_plan(k, s3, scratch, seen, conv, y);
    conv_steps::lemma_convolution(k, s3, scratch, seen, conv, y);
    let steps = conv_steps::convolution_of(k, conv, seen, room, y);
    score::lemma_step(s, s3, r, a0, l1, steps);
    assert(a0 + steps =~= steps);
    assert(l1 =~= seq![y]);
    room
}

/// The middle of the model takes each branch's channels up by that branch's convolution,
/// passes both through the transformer, and takes each branch's channels down again by
/// that branch's convolution.
#[verifier::rlimit(100)]
pub proof fn law_the_middle_goes_up_through_and_down(
    k: Kernels,
    s: Plan,
    w: GpuWeights,
    config: htdemucs::ModelConfig,
    freq: TensorView,
    time: TensorView,
) -> (c: MiddleCourse)
    ensures
        ({
            let (r, y, yt) = htdemucs::middle_plan(k, s, w, config, freq, time);
            let batch = freq.shape[0];
            r.fault is None ==> {
                &&& mediates(
                    r.commands,
                    s.commands.len() as int,
                    r.commands.len() as int,
                    k,
                    w,
                    config.heads,
                    config.t_layers as nat,
                    freq,
                    time,
                    c,
                )
                &&& y == seen_as(
                    c.down,
                    seq![batch, BOTTLENECK_CHANNELS, freq.shape[2], freq.shape[3]],
                )
                &&& yt == seen_as(c.down_t, seq![batch, BOTTLENECK_CHANNELS, time.shape[2]])
                &&& s.fault is None && r.id == s.id
                &&& s.commands.len() <= r.commands.len()
                &&& r.commands.take(s.commands.len() as int) == s.commands
            }
        }),
{
    reveal(htdemucs::middle_plan);
    let batch = freq.shape[0];
    let f = freq.shape[2];
    let t = freq.shape[3];
    let samples = time.shape[2];
    let flat = (f * t) as usize;
    let inner = TRANSFORMER_CHANNELS;
    let outer = BOTTLENECK_CHANNELS;
    let n = config.t_layers as nat;
    let room0 = lemma_sampler(
        k,
        s,
        freq,
        w.up_freq,
        batch,
        outer,
        inner,
        flat,
        "xt.up.freq"@,
        "scratch.uf"@,
    );
    let (s1, up) = htdemucs::sampler_plan(
        k,
        s,
        freq,
        w.up_freq,
        batch,
        outer,
        inner,
        flat,
        "xt.up.freq"@,
        "scratch.uf"@,
    );
    let room1 = lemma_sampler(
        k,
        s1,
        time,
        w.up_time,
        batch,
        outer,
        inner,
        samples,
        "xt.up.time"@,
        "scratch.ut"@,
    );
    let (s2, up_t) = htdemucs::sampler_plan(
        k,
        s1,
        time,
        w.up_time,
        batch,
        outer,
        inner,
        samples,
        "xt.up.time"@,
        "scratch.ut"@,
    );
    let up_shape = seq![batch, inner, f, t];
    let up_shape_t = seq![batch, inner, samples];
    let p1 = s2.reshape(up, up_shape);
    let p2 = p1.reshape(up_t, up_shape_t);
    let x = recorder::reshaped(up, up_shape);
    let xt = recorder::reshaped(up_t, up_shape_t);
    let passage = law_the_transformer_is_entered_passed_and_left(
        k,
        p2,
        config.heads,
        w.transformer,
        config.t_layers,
        x,
        xt,
    );
    let (s3, z, zt) = transformer::forward_transformer_plan(
        k,
        p2,
        config.heads,
        w.transformer,
        config.t_layers,
        x,
        xt,
    );
    let room2 = lemma_sampler(
        k,
        s3,
        z,
        w.down_freq,
        batch,
        inner,
        outer,
        flat,
        "xt.down.freq"@,
        "scratch.df"@,
    );
    let (s4, down) = htdemucs::sampler_plan(
        k,
        s3,
        z,
        w.down_freq,
        batch,
        inner,
        outer,
        flat,
        "xt.down.freq"@,
        "scratch.df"@,
    );
    let room3 = lemma_sampler(
        k,
        s4,
        zt,
        w.down_time,
        batch,
        inner,
        outer,
        samples,
        "xt.down.time"@,
        "scratch.dt"@,
    );
    let (s5, down_t) = htdemucs::sampler_plan(
        k,
        s4,
        zt,
        w.down_time,
        batch,
        inner,
        outer,
        samples,
        "xt.down.time"@,
        "scratch.dt"@,
    );
    let down_shape = seq![batch, outer, f, t];
    let down_shape_t = seq![batch, outer, samples];
    let p3 = s5.reshape(down, down_shape);
    let r = p3.reshape(down_t, down_shape_t);
    let c = MiddleCourse {
        rooms: seq![room0, room1, room2, room3],
        up,
        up_t,
        passage,
        down,
        down_t,
        marks: seq![
            s.commands.len() as int,
            s1.commands.len() as int,
            s2.commands.len() as int,
            s3.commands.len() as int,
            s4.commands.len() as int,
            s5.commands.len() as int,
        ],
    };
    if r.fault is None {
        assert(r == s5);
        let a0 = conv_steps::convolution_of(
            k,
            w.up_freq,
            recorder::reshaped(freq, seq![batch, outer, 1, flat]),
            room0,
            up,
        );
        let a1 = conv_steps::convolution_of(
            k,
            w.up_time,
            recorder::reshaped(time, seq![batch, outer, 1, samples]),
            room1,
            up_t,
        );
        let a3 = conv_steps::convolution_of(
            k,
            w.down_freq,
            recorder::reshaped(z, seq![batch, inner, 1, flat]),
            room2,
            down,
        );
        let a4 = conv_steps::convolution_of(
            k,
            w.down_time,
            recorder::reshaped(zt, seq![batch, inner, 1, samples]),
            room3,
            down_t,
        );
        score::lemma_spent(s4, s5, a4, seq![down_t]);
        score::lemma_spent(s3, s4, a3, seq![down]);
        assert(p2 == s2);
        score::lemma_spent(s1, s2, a1, seq![up_t]);
        score::lemma_spent(s, s1, a0, seq![up]);
        let m0 = s.commands.len() as int;
        let m1 = s1.commands.len() as int;
        let m2 = s2.commands.len() as int;
        let m3 = s3.commands.len() as int;
        let m4 = s4.commands.len() as int;
        lemma_grows(s1.commands, s2.commands, s3.commands);
        lemma_grows(s1.commands, s3.commands, s4.commands);
        lemma_grows(s1.commands, s4.commands, s5.commands);
        lemma_grows(s2.commands, s3.commands, s4.commands);
        lemma_grows(s2.commands, s4.commands, s5.commands);
        lemma_grows(s3.commands, s4.commands, s5.commands);
        lemma_grows(s.commands, s1.commands, s5.commands);
        lemma_part(s1.commands, s5.commands, m0, m1);
        lemma_part(s2.commands, s5.commands, m1, m2);
        lemma_part(s4.commands, s5.commands, m3, m4);
        lemma_passes_stays(
            s3.commands,
            s5.commands,
            m2,
            m3,
            config.heads,
            w.transformer,
            n,
            x,
            xt,
            passage,
        );
        assert(x == seen_as(up, up_shape));
        assert(xt == seen_as(up_t, up_shape_t));
        assert(recorder::reshaped(down, down_shape) == seen_as(down, down_shape));
        assert(recorder::reshaped(down_t, down_shape_t) == seen_as(down_t, down_shape_t));
    }
    c
}

pub proof fn lemma_grows(a: Seq<CommandView>, b: Seq<CommandView>, c: Seq<CommandView>)
    requires
        a.len() <= b.len() <= c.len(),
        b.take(a.len() as int) == a,
        c.take(b.len() as int) == b,
    ensures
        c.take(a.len() as int) == a,
{
    lemma_front(a, b, a.len() as int);
    lemma_front(b, c, b.len() as int);
    assert(c.take(a.len() as int) =~= a);
}

} // verus!