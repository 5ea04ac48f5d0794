//! The model's forward pass, planned as one list of commands.

use vstd::prelude::*;

use crate::error::Error;
use crate::gpu::arith;
use crate::gpu::decoder;
use crate::gpu::decoder::{GpuDec, SavedShapes, SavedView};
use crate::gpu::encoder;
use crate::gpu::encoder::GpuEnc;
use crate::gpu::kernels::Kernels;
use crate::gpu::pass::Pass;
use crate::gpu::recorder;
use crate::gpu::recorder::{Command, CommandView, HostInput, Plan};
use crate::gpu::shaders;
use crate::gpu::stages;
use crate::gpu::stages::GpuConv;
use crate::gpu::tensor::{DevTensor, TensorView};
use crate::gpu::transformer;
use crate::gpu::transformer::{GpuTransformer, Heads};

verus! {

/// Bytes the weights' arena may keep idle.
pub const WEIGHT_ARENA_BYTES: u64 = 1073741824;

/// Bytes the work arena may keep idle.
pub const WORK_ARENA_BYTES: u64 = 1073741824;

/// Channels of the bottleneck outside the transformer.
pub const BOTTLENECK_CHANNELS: usize = 384;

/// Channels of the bottleneck inside the transformer.
pub const TRANSFORMER_CHANNELS: usize = 512;

/// What the forward pass reads of the model's configuration.
#[derive(Debug, Clone, Copy, PartialEq, Eq, Structural)]
pub struct ModelConfig {
    /// Layers of the transformer.
    pub t_layers: usize,
    pub heads: Heads,
    /// Layers of each decoder.
    pub depth: usize,
    /// Upsampling factor of a decoder layer.
    pub stride: usize,
}

/// Segments of one pass: the spectrogram is `(batch, channels, bins, frames)`, the
/// waveform `(batch, channels_t, samples)`.
#[derive(Debug, Clone, Copy, PartialEq, Eq, Structural)]
pub struct Segments {
    pub batch: usize,
    pub channels: usize,
    pub bins: usize,
    pub frames: usize,
    pub channels_t: usize,
    pub samples: usize,
}

impl Segments {
    pub open spec fn freq_shape(self) -> Seq<usize> {
        seq![self.batch, self.channels, self.bins, self.frames]
    }

    pub open spec fn time_shape(self) -> Seq<usize> {
        seq![self.batch, self.channels_t, self.samples]
    }
}

/// Every weight of the model, on the device.
#[derive(Debug)]
pub struct GpuWeights {
    pub encoder: Vec<GpuEnc>,
    pub tencoder: Vec<GpuEnc>,
    /// The frequency embedding, one number per `(channel, frequency)` row.
    pub freq_emb_rows: DevTensor,
    pub unit: DevTensor,
    pub zero: DevTensor,
    pub transformer: GpuTransformer,
    pub up_freq: GpuConv,
    pub up_time: GpuConv,
    pub down_freq: GpuConv,
    pub down_time: GpuConv,
    pub decoder: Vec<GpuDec>,
    pub tdecoder: Vec<GpuDec>,
}

impl GpuWeights {
    pub open spec fn wf(&self) -> bool {
        &&& forall|i: int| 0 <= i < self.encoder@.len() ==> (#[trigger] self.encoder@[i]).wf()
        &&& forall|i: int| 0 <= i < self.tencoder@.len() ==> (#[trigger] self.tencoder@[i]).wf()
        &&& self.freq_emb_rows.wf()
        &&& self.unit.wf()
        &&& self.zero.wf()
        &&& self.transformer.wf()
        &&& self.up_freq.wf()
        &&& self.up_time.wf()
        &&& self.down_freq.wf()
        &&& self.down_time.wf()
        &&& forall|i: int| 0 <= i < self.decoder@.len() ==> (#[trigger] self.decoder@[i]).wf()
        &&& forall|i: int| 0 <= i < self.tdecoder@.len() ==> (#[trigger] self.tdecoder@[i]).wf()
    }
}

// --------------------------------------------------------------------- encoders

/// What the encoders leave: the bottlenecks, and what the decoders take up again.
#[verifier::ext_equal]
pub struct StackView {
    pub freq_enc: TensorView,
    pub time_enc: TensorView,
    pub saved: SavedView,
}

/// What the encoders leave.
#[derive(Debug)]
pub struct EncoderStack {
    pub freq_enc: DevTensor,
    pub time_enc: DevTensor,
    /// What every spectrogram layer left; the decoders start from the back.
    pub saved_freq: Vec<DevTensor>,
    pub saved_t: Vec<DevTensor>,
    /// The sample count in front of every waveform layer.
    pub lengths_t: Vec<usize>,
}

impl View for EncoderStack {
    type V = StackView;

    open spec fn view(&self) -> StackView {
        StackView {
            freq_enc: self.freq_enc@,
            time_enc: self.time_enc@,
            saved: SavedView {
                freq: encoder::views(self.saved_freq@),
                time: encoder::views(self.saved_t@),
                lengths: self.lengths_t@,
            },
        }
    }
}

impl EncoderStack {
    pub open spec fn wf(&self) -> bool {
        &&& self.freq_enc.wf()
        &&& self.time_enc.wf()
        &&& forall|i: int| 0 <= i < self.saved_freq@.len() ==> (#[trigger] self.saved_freq@[i]).wf()
        &&& forall|i: int| 0 <= i < self.saved_t@.len() ==> (#[trigger] self.saved_t@[i]).wf()
    }
}

/// Elements of the one scratch both stacks gather into.
#[verifier::opaque]
pub open spec fn shared_scratch(w: GpuWeights, stride: usize, seg: Segments) -> int {
    arith::at_least_one(
        encoder::larger(
            encoder::encoder_scratch(
                seg.batch,
                seg.bins,
                seg.frames,
                seg.samples,
                w.encoder@,
                w.tencoder@,
            ),
            decoder::decoder_planes(
                seg.batch,
                encoder::bins_at(seg.bins, w.encoder@.len()),
                seg.frames,
                encoder::samples_at(seg.batch, seg.samples, w.tencoder@, w.tencoder@.len()) as usize,
                encoder::lengths_before(
                    seg.batch,
                    seg.samples,
                    w.tencoder@,
                    w.tencoder@.len(),
                ),
                w.decoder@,
                w.tdecoder@,
                stride,
                decoder::shared_depth(w.decoder@, w.tdecoder@),
            ),
        ),
    )
}

pub(crate) fn shared_scratch_elems(w: &GpuWeights, stride: usize, seg: Segments) -> (r: usize)
    requires
        encoder::encoder_countable(
            seg.batch,
            seg.bins,
            seg.frames,
            seg.samples,
            w.encoder@,
            w.tencoder@,
        ),
        decoder::decoder_countable(
            seg.batch,
            encoder::bins_at(seg.bins, w.encoder@.len()),
            seg.frames,
            encoder::samples_at(seg.batch, seg.samples, w.tencoder@, w.tencoder@.len()) as usize,
            encoder::lengths_before(seg.batch, seg.samples, w.tencoder@, w.tencoder@.len()),
            w.decoder@,
            w.tdecoder@,
            stride,
        ),
    ensures
        r == shared_scratch(*w, stride, seg),
{
    proof {
        reveal(shared_scratch);
    }
    let enc_elems: usize = encoder::encoder_scratch_elems(
        seg.batch,
        seg.bins,
        seg.frames,
        seg.samples,
        &w.encoder,
        &w.tencoder,
    );
    let (bot_h, bot_t, bot_samples, lengths) = encoder::bottleneck_shapes(
        seg.batch,
        seg.bins,
        seg.frames,
        seg.samples,
        &w.encoder,
        &w.tencoder,
    );
    let dec_elems: usize = decoder::decoder_scratch_elems(
        seg.batch,
        bot_h,
        bot_t,
        bot_samples,
        &lengths,
        &w.decoder,
        &w.tdecoder,
        stride,
    );
    arith::at_least_one_of(encoder::larger_of(enc_elems, dec_elems))
}

/// Whether the encoders can be planned.
pub open spec fn stack_plannable(k: Kernels, w: GpuWeights, stride: usize, seg: Segments) -> bool {
    &&& recorder::askable(seg.freq_shape())
    &&& recorder::askable(seg.time_shape())
    &&& encoder::encoder_countable(
        seg.batch,
        seg.bins,
        seg.frames,
        seg.samples,
        w.encoder@,
        w.tencoder@,
    )
    &&& decoder::decoder_countable(
        seg.batch,
        encoder::bins_at(seg.bins, w.encoder@.len()),
        seg.frames,
        encoder::samples_at(seg.batch, seg.samples, w.tencoder@, w.tencoder@.len()) as usize,
        encoder::lengths_before(seg.batch, seg.samples, w.tencoder@, w.tencoder@.len()),
        w.decoder@,
        w.tdecoder@,
        stride,
    )
    &&& recorder::roundable((4 * shared_scratch(w, stride, seg)) as nat)
    &&& encoder::freq_layers_plannable(k, w.encoder@, seg.batch, seg.bins, seg.frames)
    &&& encoder::time_layers_plannable(k, w.tencoder@, seg.batch, seg.samples)
}

#[verifier::opaque]
pub open spec fn encoder_stack_plan(
    k: Kernels,
    s: Plan,
    w: GpuWeights,
    stride: usize,
    seg: Segments,
) -> (Plan, StackView) {
    let freq = s.fresh(seg.freq_shape());
    let s1 = s.input(seg.freq_shape(), HostInput::Spectrogram, false, "freq.in"@);
    let time = s1.fresh(seg.time_shape());
    let s2 = s1.input(seg.time_shape(), HostInput::Waveform, false, "time.in"@);
    let elements = shared_scratch(w, stride, seg);
    let scratch = s2.fresh(seq![elements as usize]);
    let s3 = s2.allocate((4 * elements) as nat, "im2col.scratch"@);
    let (s4, room, saved) = encoder::freq_layers_plan(
        k,
        s3,
        scratch,
        freq,
        w.encoder@,
        w.freq_emb_rows@,
        seg.batch,
        seg.frames,
        w.encoder@.len(),
    );
    let (s5, _, saved_t) = encoder::time_layers_plan(
        k,
        s4,
        room,
        time,
        w.tencoder@,
        seg.batch,
        w.tencoder@.len(),
    );
    (
        s5,
        StackView {
            freq_enc: if saved.len() == 0 {
                freq
            } else {
                saved.last()
            },
            time_enc: if saved_t.len() == 0 {
                time
            } else {
                saved_t.last()
            },
            saved: SavedView {
                freq: saved,
                time: saved_t,
                lengths: encoder::time_lengths(seg.samples, w.tencoder@.len()),
            },
        },
    )
}

/// The shape of the spectrogram's bottleneck.
pub open spec fn freq_enc_shape(w: GpuWeights, seg: Segments) -> Seq<usize> {
    if w.encoder@.len() == 0 {
        seg.freq_shape()
    } else {
        encoder::freq_shape_at(
            w.encoder@,
            seg.batch,
            seg.bins,
            seg.frames,
            w.encoder@.len() - 1,
        )
    }
}

/// The shape of the waveform's bottleneck.
pub open spec fn time_enc_shape(w: GpuWeights, seg: Segments) -> Seq<usize> {
    if w.tencoder@.len() == 0 {
        seg.time_shape()
    } else {
        encoder::time_shape_at(w.tencoder@, seg.batch, seg.samples, w.tencoder@.len() - 1)
    }
}

/// The shapes of what the encoders leave for the decoders.
pub open spec fn saved_shapes(w: GpuWeights, seg: Segments) -> SavedShapes {
    SavedShapes {
        freq: Seq::new(
            w.encoder@.len(),
            |i: int| encoder::freq_shape_at(w.encoder@, seg.batch, seg.bins, seg.frames, i),
        ),
        time: Seq::new(
            w.tencoder@.len(),
            |i: int| encoder::time_shape_at(w.tencoder@, seg.batch, seg.samples, i),
        ),
        lengths: encoder::time_lengths(seg.samples, w.tencoder@.len()),
    }
}

/// Both encoders, through their bottlenecks.
pub fn run_encoder_stack(
    k: &Kernels,
    pass: &mut Pass,
    w: &GpuWeights,
    stride: usize,
    seg: Segments,
) -> (r: EncoderStack)
    requires
        w.wf(),
        stack_plannable(*k, *w, stride, seg),
    ensures
        (final(pass)@, r@) == encoder_stack_plan(*k, old(pass)@, *w, stride, seg),
        r.wf(),
        r@.freq_enc.shape == freq_enc_shape(*w, seg),
        r@.time_enc.shape == time_enc_shape(*w, seg),
        r@.saved.shapes() == saved_shapes(*w, seg),
{
    proof {
        reveal(encoder_stack_plan);
    }
    let freq = pass.input(
        encoder::axes_4(seg.batch, seg.channels, seg.bins, seg.frames),
        HostInput::Spectrogram,
        false,
        "freq.in",
    );
    let time = pass.input(
        encoder::axes_3(seg.batch, seg.channels_t, seg.samples),
        HostInput::Waveform,
        false,
        "time.in",
    );
    let elements: usize = shared_scratch_elems(w, stride, seg);
    let mut scratch = pass.allocate((elements * 4) as u64, "im2col.scratch");
    let saved_freq = encoder::freq_layers(
        k,
        pass,
        &mut scratch,
        &freq,
        &w.encoder,
        &w.freq_emb_rows,
        seg.batch,
        seg.bins,
        seg.frames,
    );
    let (saved_t, lengths_t) = encoder::time_layers(
        k,
        pass,
        &mut scratch,
        &time,
        &w.tencoder,
        seg.batch,
        seg.samples,
    );
    let freq_enc = if saved_freq.len() == 0 {
        freq
    } else {
        saved_freq[saved_freq.len() - 1].clone()
    };
    let time_enc = if saved_t.len() == 0 {
        time
    } else {
        saved_t[saved_t.len() - 1].clone()
    };
    let stack = EncoderStack { freq_enc, time_enc, saved_freq, saved_t, lengths_t };
    assert(stack@.saved.shapes() =~= saved_shapes(*w, seg));
    stack
}

// ------------------------------------------------------------- channel samplers

/// Whether a channel sampler can be planned.
pub open spec fn sampler_plannable(
    k: Kernels,
    conv: GpuConv,
    batch: usize,
    channels_in: usize,
    channels_out: usize,
    flat: usize,
) -> bool {
    &&& recorder::askable(seq![batch, channels_in, 1, flat])
    &&& recorder::askable(seq![batch, channels_out, 1, flat])
    &&& arith::padded(flat as int, shaders::BN as int) <= usize::MAX
    &&& batch * channels_in <= usize::MAX
    &&& batch * channels_in * arith::padded(flat as int, shaders::BN as int) <= usize::MAX
    &&& recorder::roundable(
        (4 * (batch * channels_in * arith::padded(flat as int, shaders::BN as int))) as nat,
    )
    &&& stages::conv_plannable(k, conv.shape_spec(batch, 1, flat), conv.out_channels)
}

/// A 1x1 convolution over the channels of a flattened plane.
#[verifier::opaque]
pub open spec fn sampler_plan(
    k: Kernels,
    s: Plan,
    x: TensorView,
    conv: GpuConv,
    batch: usize,
    channels_in: usize,
    channels_out: usize,
    flat: usize,
    label: Seq<char>,
    scratch_label: Seq<char>,
) -> (Plan, TensorView) {
    let flat_in = seq![batch, channels_in, 1, flat];
    let flat_out = seq![batch, channels_out, 1, flat];
    let needed = batch * channels_in * arith::padded(flat as int, shaders::BN as int);
    let s1 = s.reshape(x, flat_in);
    let out = s1.fresh(flat_out);
    let s2 = s1.tensor(flat_out, label);
    let scratch = s2.fresh(seq![needed as usize]);
    let (s3, _) = stages::conv_stage_plan(
        k,
        s2.allocate((4 * needed) as nat, scratch_label),
        scratch,
        recorder::reshaped(x, flat_in),
        conv,
        out,
    );
    (s3, out)
}

fn sampler(
    k: &Kernels,
    pass: &mut Pass,
    x: &DevTensor,
    conv: &GpuConv,
    batch: usize,
    channels_in: usize,
    channels_out: usize,
    flat: usize,
    label: &str,
    scratch_label: &str,
) -> (r: DevTensor)
    requires
        x.wf(),
        conv.wf(),
        sampler_plannable(*k, *conv, batch, channels_in, channels_out, flat),
    ensures
        (final(pass)@, r@) == sampler_plan(
            *k,
            old(pass)@,
            x@,
            *conv,
            batch,
            channels_in,
            channels_out,
            flat,
            label@,
            scratch_label@,
        ),
        r.wf(),
{
    proof {
        reveal(sampler_plan);
    }
    let flattened = pass.reshape(x, encoder::axes_4(batch, channels_in, 1, flat));
    let out = pass.tensor(encoder::axes_4(batch, channels_out, 1, flat), label);
    let needed: usize = batch * channels_in * arith::pad_ceil(flat, shaders::BN);
    let mut scratch = pass.allocate((needed * 4) as u64, scratch_label);
    stages::conv_stage(k, pass, &mut scratch, &flattened, conv, &out);
    out
}

/// Whether the middle of the model can be planned, from bottlenecks of these shapes.
pub open spec fn middle_plannable(
    k: Kernels,
    w: GpuWeights,
    config: ModelConfig,
    freq: Seq<usize>,
    time: Seq<usize>,
) -> bool {
    let batch = freq[0];
    let flat = (freq[2] * freq[3]) as usize;
    let inner = TRANSFORMER_CHANNELS;
    let outer = BOTTLENECK_CHANNELS;
    &&& freq.len() == 4
    &&& time.len() == 3
    &&& freq[2] * freq[3] <= usize::MAX
    &&& sampler_plannable(k, w.up_freq, batch, outer, inner, flat)
    &&& sampler_plannable(k, w.up_time, batch, outer, inner, time[2])
    &&& recorder::askable(seq![batch, inner, freq[2], freq[3]])
    &&& recorder::askable(seq![batch, inner, time[2]])
    &&& transformer::transformer_plannable(
        w.transformer,
        config.heads,
        config.t_layers,
        seq![batch, inner, freq[2], freq[3]],
        seq![batch, inner, time[2]],
    )
    &&& sampler_plannable(k, w.down_freq, batch, inner, outer, flat)
    &&& sampler_plannable(k, w.down_time, batch, inner, outer, time[2])
    &&& recorder::askable(seq![batch, outer, freq[2], freq[3]])
    &&& recorder::askable(seq![batch, outer, time[2]])
}

/// The middle of the model: channels up, the transformer, channels down.
#[verifier::opaque]
pub open spec fn middle_plan(
    k: Kernels,
    s: Plan,
    w: GpuWeights,
    config: ModelConfig,
    freq: TensorView,
    time: TensorView,
) -> (Plan, TensorView, TensorView) {
    let batch = freq.shape[0];
    let f = freq.shape[2];
    let t = freq.shape[3];
    let samples = time.shape[2];
    let flat = (f * t) as usize;
    let inner = TRANSFORMER_CHANNELS;
    let outer = BOTTLENECK_CHANNELS;
    let (s1, up) = sampler_plan(
        k,
        s,
        freq,
        w.up_freq,
        batch,
        outer,
        inner,
        flat,
        "xt.up.freq"@,
        "scratch.uf"@,
    );
    let (s2, up_t) = sampler_plan(
        k,
        s1,
        time,
        w.up_time,
        batch,
        outer,
        inner,
        samples,
        "xt.up.time"@,
        "scratch.ut"@,
    );
    let up_shape = seq![batch, inner, f, t];
    let up_shape_t = seq![batch, inner, samples];
    let (s3, x, xt) = transformer::forward_transformer_plan(
        k,
        s2.reshape(up, up_shape).reshape(up_t, up_shape_t),
        config.heads,
        w.transformer,
        config.t_layers,
        recorder::reshaped(up, up_shape),
        recorder::reshaped(up_t, up_shape_t),
    );
    let (s4, down) = sampler_plan(
        k,
        s3,
        x,
        w.down_freq,
        batch,
        inner,
        outer,
        flat,
        "xt.down.freq"@,
        "scratch.df"@,
    );
    let (s5, down_t) = sampler_plan(
        k,
        s4,
        xt,
        w.down_time,
        batch,
        inner,
        outer,
        samples,
        "xt.down.time"@,
        "scratch.dt"@,
    );
    let down_shape = seq![batch, outer, f, t];
    let down_shape_t = seq![batch, outer, samples];
    (
        s5.reshape(down, down_shape).reshape(down_t, down_shape_t),
        recorder::reshaped(down, down_shape),
        recorder::reshaped(down_t, down_shape_t),
    )
}

fn middle(
    k: &Kernels,
    pass: &mut Pass,
    w: &GpuWeights,
    config: ModelConfig,
    freq: &DevTensor,
    time: &DevTensor,
) -> (r: (DevTensor, DevTensor))
    requires
        w.wf(),
        freq.wf(),
        time.wf(),
        middle_plannable(*k, *w, config, freq@.shape, time@.shape),
    ensures
        (final(pass)@, r.0@, r.1@) == middle_plan(*k, old(pass)@, *w, config, freq@, time@),
        r.0.wf(),
        r.1.wf(),
        r.0@.shape == seq![freq@.shape[0], BOTTLENECK_CHANNELS, freq@.shape[2], freq@.shape[3]],
        r.1@.shape == seq![freq@.shape[0], BOTTLENECK_CHANNELS, time@.shape[2]],
{
    proof {
        reveal(middle_plan);
    }
    let batch: usize = freq.shape[0];
    let f: usize = freq.shape[2];
    let t: usize = freq.shape[3];
    let samples: usize = time.shape[2];
    let flat: usize = f * t;
    let inner: usize = TRANSFORMER_CHANNELS;
    let outer: usize = BOTTLENECK_CHANNELS;
    let up = sampler(
        k,
        pass,
        freq,
        &w.up_freq,
        batch,
        outer,
        inner,
        flat,
        "xt.up.freq",
        "scratch.uf",
    );
    let up_t = sampler(
        k,
        pass,
        time,
        &w.up_time,
        batch,
        outer,
        inner,
        samples,
        "xt.up.time",
        "scratch.ut",
    );
    let wide = pass.reshape(&up, encoder::axes_4(batch, inner, f, t));
    let wide_t = pass.reshape(&up_t, encoder::axes_3(batch, inner, samples));
    let (x, xt) = transformer::forward_transformer(
        k,
        pass,
        config.heads,
        &w.transformer,
        config.t_layers,
        &wide,
        &wide_t,
    );
    let down = sampler(
        k,
        pass,
        &x,
        &w.down_freq,
        batch,
        inner,
        outer,
        flat,
        "xt.down.freq",
        "scratch.df",
    );
    let down_t = sampler(
        k,
        pass,
        &xt,
        &w.down_time,
        batch,
        inner,
        outer,
        samples,
        "xt.down.time",
        "scratch.dt",
    );
    let narrow = pass.reshape(&down, encoder::axes_4(batch, outer, f, t));
    let narrow_t = pass.reshape(&down_t, encoder::axes_3(batch, outer, samples));
    (narrow, narrow_t)
}

/// Whether everything up to the decoders' inputs can be planned.
pub open spec fn inputs_plannable(
    k: Kernels,
    w: GpuWeights,
    config: ModelConfig,
    seg: Segments,
) -> bool {
    &&& stack_plannable(k, w, config.stride, seg)
    &&& middle_plannable(k, w, config, freq_enc_shape(w, seg), time_enc_shape(w, seg))
}

pub open spec fn decoder_inputs_plan(
    k: Kernels,
    s: Plan,
    w: GpuWeights,
    config: ModelConfig,
    seg: Segments,
) -> (Plan, TensorView, TensorView, StackView) {
    let (s1, stack) = encoder_stack_plan(k, s, w, config.stride, seg);
    let (s2, freq, time) = middle_plan(k, s1, w, config, stack.freq_enc, stack.time_enc);
    (s2, freq, time, stack)
}

/// Encoders, samplers and transformer: the decoders' inputs and what the encoders
/// left for them.
pub fn run_to_decoder_inputs(
    k: &Kernels,
    pass: &mut Pass,
    w: &GpuWeights,
    config: ModelConfig,
    seg: Segments,
) -> (r: (DevTensor, DevTensor, EncoderStack))
    requires
        w.wf(),
        inputs_plannable(*k, *w, config, seg),
    ensures
        (final(pass)@, r.0@, r.1@, r.2@) == decoder_inputs_plan(
            *k,
            old(pass)@,
            *w,
            config,
            seg,
        ),
        r.0.wf(),
        r.1.wf(),
        r.2.wf(),
        r.0@.shape == freq_in_shape(*w, seg),
        r.1@.shape == time_in_shape(*w, seg),
        r.2@.saved.shapes() == saved_shapes(*w, seg),
{
    let stack = run_encoder_stack(k, pass, w, config.stride, seg);
    let (freq, time) = middle(k, pass, w, config, &stack.freq_enc, &stack.time_enc);
    (freq, time, stack)
}

/// The shape the spectrogram's decoder takes.
pub open spec fn freq_in_shape(w: GpuWeights, seg: Segments) -> Seq<usize> {
    let shape = freq_enc_shape(w, seg);
    seq![shape[0], BOTTLENECK_CHANNELS, shape[2], shape[3]]
}

/// The shape the waveform's decoder takes.
pub open spec fn time_in_shape(w: GpuWeights, seg: Segments) -> Seq<usize> {
    seq![freq_enc_shape(w, seg)[0], BOTTLENECK_CHANNELS, time_enc_shape(w, seg)[2]]
}

// --------------------------------------------------------------------- decoders

/// Elements of the decoders' scratch.
pub open spec fn decoder_scratch(
    w: GpuWeights,
    stride: usize,
    freq: Seq<usize>,
    time: Seq<usize>,
    lengths: Seq<usize>,
) -> int {
    arith::at_least_one(
        decoder::decoder_planes(
            freq[0],
            freq[2],
            freq[3],
            time[2],
            lengths,
            w.decoder@,
            w.tdecoder@,
            stride,
            decoder::shared_depth(w.decoder@, w.tdecoder@),
        ),
    )
}

/// Whether the decoders can be planned.
pub open spec fn decoders_plannable(
    k: Kernels,
    w: GpuWeights,
    config: ModelConfig,
    freq: Seq<usize>,
    time: Seq<usize>,
    saved: SavedShapes,
) -> bool {
    &&& decoder::layers_plannable(
        k,
        freq,
        time,
        saved,
        w.decoder@,
        w.tdecoder@,
        config.stride,
        config.depth as int,
    )
    &&& decoder::decoder_countable(
        freq[0],
        freq[2],
        freq[3],
        time[2],
        saved.lengths,
        w.decoder@,
        w.tdecoder@,
        config.stride,
    )
    &&& recorder::roundable(
        (4 * decoder_scratch(w, config.stride, freq, time, saved.lengths)) as nat,
    )
}

pub open spec fn decoders_plan(
    k: Kernels,
    s: Plan,
    w: GpuWeights,
    config: ModelConfig,
    freq: TensorView,
    time: TensorView,
    saved: SavedView,
) -> (Plan, TensorView, TensorView) {
    let elements = decoder_scratch(w, config.stride, freq.shape, time.shape, saved.lengths);
    let (s1, _, x, xt) = decoder::layers_plan(
        k,
        s.allocate((4 * elements) as nat, "dec.scratch"@),
        s.fresh(seq![elements as usize]),
        freq,
        time,
        saved,
        w.decoder@,
        w.tdecoder@,
        config.stride,
        freq.shape[0],
        config.depth as nat,
        config.depth as nat,
    );
    (s1, x, xt)
}

/// Both decoders, from their inputs to the branches' outputs.
pub fn run_decoders(
    k: &Kernels,
    pass: &mut Pass,
    w: &GpuWeights,
    config: ModelConfig,
    freq: DevTensor,
    time: DevTensor,
    stack: EncoderStack,
) -> (r: (DevTensor, DevTensor))
    requires
        w.wf(),
        freq.wf(),
        time.wf(),
        stack.wf(),
        decoders_plannable(*k, *w, config, freq@.shape, time@.shape, stack@.saved.shapes()),
    ensures
        (final(pass)@, r.0@, r.1@) == decoders_plan(
            *k,
            old(pass)@,
            *w,
            config,
            freq@,
            time@,
            stack@.saved,
        ),
        r.0.wf(),
        r.1.wf(),
{
    let elements: usize = arith::at_least_one_of(
        decoder::decoder_scratch_elems(
            freq.shape[0],
            freq.shape[2],
            freq.shape[3],
            time.shape[2],
            &stack.lengths_t,
            &w.decoder,
            &w.tdecoder,
            config.stride,
        ),
    );
    let mut scratch = pass.allocate((elements * 4) as u64, "dec.scratch");
    decoder::layers(
        k,
        pass,
        &mut scratch,
        freq,
        time,
        &stack.saved_freq,
        &stack.saved_t,
        &stack.lengths_t,
        &w.decoder,
        &w.tdecoder,
        config.stride,
        config.depth,
    )
}

// ----------------------------------------------------------------------- passes

/// Two read-backs, spectrogram first.
pub open spec fn read_both(s: Plan, freq: TensorView, time: TensorView) -> Plan {
    s.command(CommandView::Readback { tensor: freq }).command(
        CommandView::Readback { tensor: time },
    )
}

/// The commands of a finished plan, or the error that stopped it.
pub open spec fn outcome(s: Plan, r: Result<Vec<Command>, Error>) -> bool {
    match r {
        Ok(commands) => s.fault is None && recorder::commands_view(commands@) == s.commands,
        Err(e) => s.fault == Some(e@),
    }
}

/// The model on one device: its kernels, weights and configuration, and the largest
/// buffer the device gives.
#[derive(Debug)]
pub struct GpuHtdemucsRunner {
    pub kernels: Kernels,
    pub weights: GpuWeights,
    pub config: ModelConfig,
    pub limit: u64,
}

/// An empty pass.
pub open spec fn start(id: u32, limit: u64) -> Plan {
    Plan { id, limit, commands: Seq::empty(), fault: None }
}

impl GpuHtdemucsRunner {
    /// A runner of weights that are already planned.
    pub fn new(kernels: Kernels, weights: GpuWeights, config: ModelConfig, limit: u64) -> (r: Self)
        ensures
            r == (GpuHtdemucsRunner { kernels, weights, config, limit }),
    {
        GpuHtdemucsRunner { kernels, weights, config, limit }
    }

    pub open spec fn encoders_plan(self, id: u32, seg: Segments) -> Plan {
        let (s, stack) = encoder_stack_plan(
            self.kernels,
            start(id, self.limit),
            self.weights,
            self.config.stride,
            seg,
        );
        read_both(s, stack.freq_enc, stack.time_enc)
    }

    /// The encoders alone: reads back the two bottlenecks. `id` tells the pass's
    /// buffers from other passes'.
    pub fn forward_encoders(&self, id: u32, seg: Segments) -> (r: Result<Vec<Command>, Error>)
        requires
            self.weights.wf(),
            stack_plannable(self.kernels, self.weights, self.config.stride, seg),
        ensures
            outcome(self.encoders_plan(id, seg), r),
    {
        let mut pass = Pass::new(id, self.limit);
        let stack = run_encoder_stack(
            &self.kernels,
            &mut pass,
            &self.weights,
            self.config.stride,
            seg,
        );
        pass.readback(&stack.freq_enc);
        pass.readback(&stack.time_enc);
        pass.finish()
    }

    pub open spec fn transformed_plan(self, id: u32, seg: Segments) -> Plan {
        let (s, freq, time, _) = decoder_inputs_plan(
            self.kernels,
            start(id, self.limit),
            self.weights,
            self.config,
            seg,
        );
        read_both(s, freq, time)
    }

    /// Encoders, samplers and transformer: reads back the decoders' inputs.
    pub fn forward_encoder_and_transformer(&self, id: u32, seg: Segments) -> (r: Result<
        Vec<Command>,
        Error,
    >)
        requires
            self.weights.wf(),
            inputs_plannable(self.kernels, self.weights, self.config, seg),
        ensures
            outcome(self.transformed_plan(id, seg), r),
    {
        let mut pass = Pass::new(id, self.limit);
        let (freq, time, _) = run_to_decoder_inputs(
            &self.kernels,
            &mut pass,
            &self.weights,
            self.config,
            seg,
        );
        pass.readback(&freq);
        pass.readback(&time);
        pass.finish()
    }

    pub open spec fn branches_plan(self, id: u32, seg: Segments) -> Plan {
        let (s, freq, time, stack) = decoder_inputs_plan(
            self.kernels,
            start(id, self.limit),
            self.weights,
            self.config,
            seg,
        );
        let (s1, x, xt) = decoders_plan(
            self.kernels,
            s,
            self.weights,
            self.config,
            freq,
            time,
            stack.saved,
        );
        read_both(s1, x, xt)
    }

    /// Whether the whole model can be planned.
    pub open spec fn plannable(self, seg: Segments) -> bool {
        &&& inputs_plannable(self.kernels, self.weights, self.config, seg)
        &&& decoders_plannable(
            self.kernels,
            self.weights,
            self.config,
            freq_in_shape(self.weights, seg),
            time_in_shape(self.weights, seg),
            saved_shapes(self.weights, seg),
        )
    }

    /// The whole model: reads back the two branches' outputs. Everything, read-backs
    /// included, is one list of commands for one submission.
    pub fn forward_branch_outputs(&self, id: u32, seg: Segments) -> (r: Result<
        Vec<Command>,
        Error,
    >)
        requires
            self.weights.wf(),
            self.plannable(seg),
        ensures
            outcome(self.branches_plan(id, seg), r),
    {
        let mut pass = Pass::new(id, self.limit);
        let (freq, time, stack) = run_to_decoder_inputs(
            &self.kernels,
            &mut pass,
            &self.weights,
            self.config,
            seg,
        );
        let (x, xt) = run_decoders(
            &self.kernels,
            &mut pass,
            &self.weights,
            self.config,
            freq,
            time,
            stack,
        );
        pass.readback(&x);
        pass.readback(&xt);
        pass.finish()
    }
}

} // verus!
