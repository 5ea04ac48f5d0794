//! What one pass of the whole model does, from what the host supplies to what it reads.

use vstd::prelude::*;

use crate::gpu::decoder;
use crate::gpu::decoder::SavedView;
use crate::gpu::decoder_laws;
use crate::gpu::decoder_laws::DecoderCourse;
use crate::gpu::encoder;
use crate::gpu::encoder::GpuEnc;
use crate::gpu::encoder_laws;
use crate::gpu::encoder_laws::EncoderCourse;
use crate::gpu::htdemucs;
use crate::gpu::htdemucs::{GpuHtdemucsRunner, Segments, BOTTLENECK_CHANNELS};
use crate::gpu::kernels::Kernels;
use crate::gpu::middle_laws;
use crate::gpu::middle_laws::{lemma_front, lemma_grows, lemma_part, supplied, MiddleCourse};
use crate::gpu::recorder::{CommandView, HostInput};
use crate::gpu::score;
use crate::gpu::tensor::TensorView;
use crate::gpu::transformer_steps::seen_as;

verus! {

/// The course of a pass: its inputs, the courses of the encoders, what they leave for the
/// decoders, the courses of the middle and of the decoders, and where each part begins.
pub struct PassCourse {
    pub freq: TensorView,
    pub time: TensorView,
    pub bins: EncoderCourse,
    pub samples: EncoderCourse,
    pub saved: SavedView,
    pub middle: MiddleCourse,
    pub decoders: DecoderCourse,
    pub marks: Seq<int>,
}

/// The last of what an encoder left, or its input where it has no layer.
pub open spec fn deepest(x: TensorView, saved: Seq<TensorView>) -> TensorView {
    encoder_laws::taken(x, saved, saved.len() as int)
}

proof fn lemma_bins_stay(
    before: Seq<CommandView>,
    after: Seq<CommandView>,
    from: int,
    to: int,
    k: Kernels,
    x: TensorView,
    layers: Seq<GpuEnc>,
    embedding: TensorView,
    batch: usize,
    frames: usize,
    saved: Seq<TensorView>,
    n: nat,
    c: EncoderCourse,
)
    requires
        0 <= from,
        to <= before.len() <= after.len(),
        after.take(before.len() as int) == before,
        encoder_laws::encodes_all_bins(
            before,
            from,
            to,
            k,
            x,
            layers,
            embedding,
            batch,
            frames,
            saved,
            n,
            c,
        ),
    ensures
        encoder_laws::encodes_all_bins(
            after,
            from,
            to,
            k,
            x,
            layers,
            embedding,
            batch,
            frames,
            saved,
            n,
            c,
        ),
{
    assert forall|i: int| 0 <= i < n implies #[trigger] encoder_laws::encodes_all_bins_at(
        after,
        from,
        to,
        k,
        x,
        layers,
        embedding,
        batch,
        frames,
        saved,
        c,
        i,
    ) by {
        assert(encoder_laws::encodes_all_bins_at(
            before,
            from,
            to,
            k,
            x,
            layers,
            embedding,
            batch,
            frames,
            saved,
            c,
            i,
        ));
        lemma_part(before, after, c.marks[i], c.marks[i + 1]);
    }
}

proof fn lemma_samples_stay(
    before: Seq<CommandView>,
    after: Seq<CommandView>,
    from: int,
    to: int,
    k: Kernels,
    x: TensorView,
    layers: Seq<GpuEnc>,
    batch: usize,
    saved: Seq<TensorView>,
    n: nat,
    c: EncoderCourse,
)
    requires
        0 <= from,
        to <= before.len() <= after.len(),
        after.take(before.len() as int) == before,
        encoder_laws::encodes_all_samples(before, from, to, k, x, layers, batch, saved, n, c),
    ensures
        encoder_laws::encodes_all_samples(after, from, to, k, x, layers, batch, saved, n, c),
{
    assert forall|i: int| 0 <= i < n implies #[trigger] encoder_laws::encodes_all_samples_at(
        after,
        from,
        to,
        k,
        x,
        layers,
        batch,
        saved,
        c,
        i,
    ) by {
        assert(encoder_laws::encodes_all_samples_at(
            before,
            from,
            to,
            k,
            x,
            layers,
            batch,
            saved,
            c,
            i,
        ));
        lemma_part(before, after, c.marks[i], c.marks[i + 1]);
    }
}

/// The lengths kept for the decoders are those the waveform's layers were given.
proof fn lemma_lengths(
    commands: Seq<CommandView>,
    from: int,
    to: int,
    k: Kernels,
    x: TensorView,
    layers: Seq<GpuEnc>,
    batch: usize,
    saved: Seq<TensorView>,
    n: nat,
    c: EncoderCourse,
    i: nat,
)
    requires
        encoder_laws::encodes_all_samples(commands, from, to, k, x, layers, batch, saved, n, c),
        i <= n,
    ensures
        encoder_laws::taken(x, saved, i as int).shape[2] == encoder::time_at(x.shape[2], i),
    decreases i,
{
    if i > 0 {
        let j = (i - 1) as nat;
        lemma_lengths(commands, from, to, k, x, layers, batch, saved, n, c, j);
        assert(encoder_laws::encodes_all_samples_at(
            commands,
            from,
            to,
            k,
            x,
            layers,
            batch,
            saved,
            c,
            j as int,
        ));
        let had = encoder_laws::taken(x, saved, j as int).shape[2];
        assert(encoder::time_kept(had as int) == (had + 3) / 4);
    }
}

/// Whether the commands of a pass are the whole model on `seg`: both inputs as the host
/// supplies them, every layer of either encoder, the middle on what the last of each left,
/// both decoders on what the middle gave and on what the encoders left, deepest first, and
/// at the end both results for the host to read, the spectrogram's first.
pub open spec fn is_pass(
    commands: Seq<CommandView>,
    g: GpuHtdemucsRunner,
    seg: Segments,
    c: PassCourse,
) -> bool {
    let k = g.kernels;
    let w = g.weights;
    let depth = g.config.depth as nat;
    let m = c.marks;
    let deep = deepest(c.freq, c.saved.freq);
    let deep_t = deepest(c.time, c.saved.time);
    let batch = seg.batch;
    &&& m.len() == 6
    &&& m[0] <= m[1] && m[1] <= m[2] && m[2] <= m[3] && m[3] <= m[4] && m[4] <= m[5] && m[5] + 2
        == commands.len()
    &&& supplied(commands, c.freq, HostInput::Spectrogram) && c.freq.shape == seg.freq_shape()
    &&& supplied(commands, c.time, HostInput::Waveform) && c.time.shape == seg.time_shape()
    &&& encoder_laws::encodes_all_bins(
        commands,
        m[0],
        m[1],
        k,
        c.freq,
        w.encoder@,
        w.freq_emb_rows@,
        batch,
        seg.frames,
        c.saved.freq,
        w.encoder@.len(),
        c.bins,
    )
    &&& encoder_laws::encodes_all_samples(
        commands,
        m[1],
        m[2],
        k,
        c.time,
        w.tencoder@,
        batch,
        c.saved.time,
        w.tencoder@.len(),
        c.samples,
    )
    &&& c.saved.lengths.len() == w.tencoder@.len()
    &&& forall|i: int|
        0 <= i < w.tencoder@.len() ==> #[trigger] c.saved.lengths[i] == encoder_laws::taken(
            c.time,
            c.saved.time,
            i,
        ).shape[2]
    &&& middle_laws::mediates(
        commands,
        m[2],
        m[3],
        k,
        w,
        g.config.heads,
        g.config.t_layers as nat,
        deep,
        deep_t,
        c.middle,
    )
    &&& decoder_laws::decodes(
        commands,
        m[4],
        m[5],
        k,
        c.saved,
        w.decoder@,
        w.tdecoder@,
        g.config.stride,
        deep.shape[0],
        depth,
        depth,
        c.decoders,
    )
    &&& c.decoders.x[0] == seen_as(
        c.middle.down,
        seq![deep.shape[0], BOTTLENECK_CHANNELS, deep.shape[2], deep.shape[3]],
    )
    &&& c.decoders.xt[0] == seen_as(
        c.middle.down_t,
        seq![deep.shape[0], BOTTLENECK_CHANNELS, deep_t.shape[2]],
    )
    &&& commands[m[5]] == (CommandView::Readback { tensor: c.decoders.x[depth as int] })
    &&& commands[m[5] + 1] == (CommandView::Readback { tensor: c.decoders.xt[depth as int] })
}

/// A pass that can be planned is the whole model on its segments: every layer of every
/// part once, in order, by its own weights, each on what the part before it left.
#[verifier::rlimit(100)]
pub proof fn law_a_pass_is_the_whole_model(
    g: GpuHtdemucsRunner,
    id: u32,
    seg: Segments,
) -> (c: PassCourse)
    ensures
        ({
            let r = g.branches_plan(id, seg);
            r.fault is None && r.commands.len() <= usize::MAX ==> is_pass(r.commands, g, seg, c)
        }),
{
    reveal(htdemucs::encoder_stack_plan);
    let k = g.kernels;
    let w = g.weights;
    let config = g.config;
    let batch = seg.batch;
    let s = htdemucs::start(id, g.limit);
    let freq = s.fresh(seg.freq_shape());
    let s1 = s.input(seg.freq_shape(), HostInput::Spectrogram, false, "freq.in"@);
    let time = s1.fresh(seg.time_shape());
    let s2 = s1.input(seg.time_shape(), HostInput::Waveform, false, "time.in"@);
    let elements = htdemucs::shared_scratch(w, config.stride, seg);
    let room = s2.fresh(seq![elements as usize]);
    let s3 = s2.allocate((4 * elements) as nat, "im2col.scratch"@);
    let n = w.encoder@.len();
    let nt = w.tencoder@.len();
    let emb = w.freq_emb_rows@;
    let bins = encoder_laws::law_every_spectrogram_layer_applies_its_own_weights(
        k,
        s3,
        room,
        freq,
        w.encoder@,
        emb,
        batch,
        seg.frames,
        n,
    );
    let (s4, room1, saved) = encoder::freq_layers_plan(
        k,
        s3,
        room,
        freq,
        w.encoder@,
        emb,
        batch,
        seg.frames,
        n,
    );
    let samples = encoder_laws::law_every_waveform_layer_applies_its_own_weights(
        k,
        s4,
        room1,
        time,
        w.tencoder@,
        batch,
        nt,
    );
    let (s5, room2, saved_t) = encoder::time_layers_plan(
        k,
        s4,
        room1,
        time,
        w.tencoder@,
        batch,
        nt,
    );
    let deep = deepest(freq, saved);
    let deep_t = deepest(time, saved_t);
    let all = SavedView {
        freq: saved,
        time: saved_t,
        lengths: encoder::time_lengths(seg.samples, nt),
    };
    let middle = middle_laws::law_the_middle_goes_up_through_and_down(
        k,
        s5,
        w,
        config,
        deep,
        deep_t,
    );
    let (s6, x, xt) = htdemucs::middle_plan(k, s5, w, config, deep, deep_t);
    let needed = htdemucs::decoder_scratch(w, config.stride, x.shape, xt.shape, all.lengths);
    let s7 = s6.allocate((4 * needed) as nat, "dec.scratch"@);
    let room3 = s6.fresh(seq![needed as usize]);
    let depth = config.depth as nat;
    let decoders = decoder_laws::law_every_decoder_layer_applies_its_own_weights(
        k,
        s7,
        room3,
        x,
        xt,
        all,
        w.decoder@,
        w.tdecoder@,
        config.stride,
        x.shape[0],
        depth,
        depth,
    );
    let (s8, room4, y, yt) = decoder::layers_plan(
        k,
        s7,
        room3,
        x,
        xt,
        all,
        w.decoder@,
        w.tdecoder@,
        config.stride,
        x.shape[0],
        depth,
        depth,
    );
    let r = g.branches_plan(id, seg);
    assert(r == htdemucs::read_both(s8, y, yt));
    let c = PassCourse {
        freq,
        time,
        bins,
        samples,
        saved: all,
        middle,
        decoders,
        marks: seq![
            s3.commands.len() as int,
            s4.commands.len() as int,
            s5.commands.len() as int,
            s6.commands.len() as int,
            s7.commands.len() as int,
            s8.commands.len() as int,
        ],
    };
    if r.fault is None && r.commands.len() <= usize::MAX {
        assert(s8.fault is None);
        score::lemma_allocate(s6, (4 * needed) as nat, "dec.scratch"@, seq![needed as usize]);
        score::lemma_spent(s6, s7, score::silence(), seq![room3]);
        assert(s3.fault is None);
        assert(s2.fault is None && s1.fault is None);
        assert(r.commands.take(s8.commands.len() as int) =~= s8.commands);
        assert(s3.commands.len() == 3);
        lemma_grows(s7.commands, s8.commands, r.commands);
        lemma_grows(s6.commands, s7.commands, r.commands);
        lemma_grows(s5.commands, s6.commands, r.commands);
        lemma_grows(s4.commands, s5.commands, r.commands);
        lemma_grows(s3.commands, s4.commands, r.commands);
        lemma_front(s3.commands, r.commands, 3);
        assert(s3.commands[0] == s1.commands[0]);
        assert(s3.commands[1] == s2.commands[1]);
        assert(supplied(r.commands, freq, HostInput::Spectrogram));
        assert(supplied(r.commands, time, HostInput::Waveform));
        lemma_bins_stay(
            s4.commands,
            r.commands,
            s3.commands.len() as int,
            s4.commands.len() as int,
            k,
            freq,
            w.encoder@,
            emb,
            batch,
            seg.frames,
            saved,
            n,
            bins,
        );
        lemma_samples_stay(
            s5.commands,
            r.commands,
            s4.commands.len() as int,
            s5.commands.len() as int,
            k,
            time,
            w.tencoder@,
            batch,
            saved_t,
            nt,
            samples,
        );
        assert forall|i: int| 0 <= i < nt implies #[trigger] all.lengths[i]
            == encoder_laws::taken(time, saved_t, i).shape[2] by {
            lemma_lengths(
                r.commands,
                s4.commands.len() as int,
                s5.commands.len() as int,
                k,
                time,
                w.tencoder@,
                batch,
                saved_t,
                nt,
                samples,
                i as nat,
            );
        }
        middle_laws::lemma_mediates_stays(
            s6.commands,
            r.commands,
            s5.commands.len() as int,
            s6.commands.len() as int,
            k,
            w,
            config.heads,
            config.t_layers as nat,
            deep,
            deep_t,
            middle,
        );
        lemma_decoders_stay(
            s8.commands,
            r.commands,
            s7.commands.len() as int,
            s8.commands.len() as int,
            g,
            all,
            deep.shape[0],
            depth,
            decoders,
        );
    }
    c
}

proof fn lemma_decoders_stay(
    before: Seq<CommandView>,
    after: Seq<CommandView>,
    from: int,
    to: int,
    g: GpuHtdemucsRunner,
    saved: SavedView,
    batch: usize,
    depth: nat,
    c: DecoderCourse,
)
    requires
        0 <= from,
        to <= before.len() <= after.len(),
        after.take(before.len() as int) == before,
        decoder_laws::decodes(
            before,
            from,
            to,
            g.kernels,
            saved,
            g.weights.decoder@,
            g.weights.tdecoder@,
            g.config.stride,
            batch,
            depth,
            depth,
            c,
        ),
    ensures
        decoder_laws::decodes(
            after,
            from,
            to,
            g.kernels,
            saved,
            g.weights.decoder@,
            g.weights.tdecoder@,
            g.config.stride,
            batch,
            depth,
            depth,
            c,
        ),
{
    assert forall|i: int| 0 <= i < depth implies #[trigger] decoder_laws::decodes_at(
        after,
        from,
        to,
        g.kernels,
        saved,
        g.weights.decoder@,
        g.weights.tdecoder@,
        g.config.stride,
        batch,
        depth,
        c,
        i,
    ) by {
        assert(decoder_laws::decodes_at(
            before,
            from,
            to,
            g.kernels,
            saved,
            g.weights.decoder@,
            g.weights.tdecoder@,
            g.config.stride,
            batch,
            depth,
            c,
            i,
        ));
        lemma_part(before, after, c.marks[i], c.mids[i]);
        lemma_part(before, after, c.mids[i], c.marks[i + 1]);
    }
}

} // verus!
