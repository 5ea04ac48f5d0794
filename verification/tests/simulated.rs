//! Runs a whole planned pass on a simulated device, and the same network by hand.

use std::collections::HashMap;

use demucs_core::gpu::htdemucs::{GpuHtdemucsRunner, GpuWeights, ModelConfig, Segments};
use demucs_core::gpu::kernels::{Kernels, Settings};
use demucs_core::gpu::pass::Pass;
use demucs_core::gpu::pipelines::Kernel;
use demucs_core::gpu::recorder::{Binding, Command, Dispatch, HostInput};
use demucs_core::gpu::tensor::BufferId;
use demucs_core::gpu::transformer::Heads;
use demucs_core::gpu::weights::{
    ConvW, DConvLayerW, DConvW, DecLayerW, EncLayerW, HtdemucsWeights, LayerNormW, LinearW,
    TransformerLayerW, TransformerW,
};

const LIMIT: u64 = 1 << 31;
const DIM: usize = 512;

// ------------------------------------------------------------------ the weights

struct Dice(u64);

impl Dice {
    fn next(&mut self) -> f32 {
        self.0 = self.0.wrapping_mul(6364136223846793005).wrapping_add(1442695040888963407);
        ((self.0 >> 40) as f32) / ((1u64 << 24) as f32) - 0.5
    }

    fn many(&mut self, n: usize, base: f32, scale: f32) -> Vec<u32> {
        (0..n).map(|_| (base + scale * self.next()).to_bits()).collect()
    }

    fn conv(&mut self, shape: &[usize], outputs: usize) -> ConvW {
        let fan: usize = shape[1..].iter().product();
        let scale = 3.0 / (fan as f32).sqrt();
        ConvW {
            weight: self.many(shape.iter().product(), 0.0, scale),
            bias: self.many(outputs, 0.0, 0.5),
            shape: shape.to_vec(),
        }
    }

    fn dconv(&mut self, channels: usize) -> DConvW {
        let hidden = channels / 8;
        let mut layers = Vec::new();
        for _ in 0..2 {
            layers.push(DConvLayerW {
                conv1: self.conv(&[hidden, channels, 3], hidden),
                norm1_weight: self.many(hidden, 1.0, 0.5),
                norm1_bias: self.many(hidden, 0.0, 0.5),
                conv2: self.conv(&[2 * channels, hidden, 1], 2 * channels),
                norm2_weight: self.many(2 * channels, 1.0, 0.5),
                norm2_bias: self.many(2 * channels, 0.0, 0.5),
                gamma: self.many(channels, 0.3, 0.2),
            });
        }
        DConvW { channels, layers }
    }

    fn norm(&mut self, dim: usize) -> LayerNormW {
        LayerNormW { weight: self.many(dim, 1.0, 0.5), bias: self.many(dim, 0.0, 0.5) }
    }

    fn linear(&mut self, outputs: usize, inputs: usize) -> LinearW {
        LinearW {
            weight: self.many(outputs * inputs, 0.0, 3.0 / (inputs as f32).sqrt()),
            bias: self.many(outputs, 0.0, 0.5),
            out_features: outputs,
            in_features: inputs,
        }
    }

    fn layer(&mut self, is_cross: bool) -> TransformerLayerW {
        let scale = 3.0 / (DIM as f32).sqrt();
        TransformerLayerW {
            is_cross,
            q_weight: self.many(DIM * DIM, 0.0, scale),
            q_bias: self.many(DIM, 0.0, 0.5),
            k_weight: self.many(DIM * DIM, 0.0, scale),
            k_bias: self.many(DIM, 0.0, 0.5),
            v_weight: self.many(DIM * DIM, 0.0, scale),
            v_bias: self.many(DIM, 0.0, 0.5),
            out_proj: self.linear(DIM, DIM),
            linear1: self.linear(40, DIM),
            linear2: self.linear(DIM, 40),
            norm1: self.norm(DIM),
            norm2: self.norm(DIM),
            norm3: if is_cross { Some(self.norm(DIM)) } else { None },
            norm_out: self.norm(DIM),
            gamma1: self.many(DIM, 0.3, 0.2),
            gamma2: self.many(DIM, 0.3, 0.2),
        }
    }

    fn encoder(&mut self, inputs: usize, outputs: usize, image: bool) -> EncLayerW {
        let (conv, rewrite) = if image {
            (vec![outputs, inputs, 8, 1], vec![2 * outputs, outputs, 1, 1])
        } else {
            (vec![outputs, inputs, 8], vec![2 * outputs, outputs, 1])
        };
        EncLayerW {
            conv: self.conv(&conv, outputs),
            rewrite: self.conv(&rewrite, 2 * outputs),
            dconv: self.dconv(outputs),
        }
    }

    fn decoder(&mut self, inputs: usize, outputs: usize, image: bool) -> DecLayerW {
        let (rewrite, conv_tr) = if image {
            (vec![2 * inputs, inputs, 3, 3], vec![inputs, outputs, 8, 1])
        } else {
            (vec![2 * inputs, inputs, 3], vec![inputs, outputs, 8])
        };
        DecLayerW {
            rewrite: self.conv(&rewrite, 2 * inputs),
            dconv: self.dconv(inputs),
            conv_tr: self.conv(&conv_tr, outputs),
        }
    }
}

fn weights() -> HtdemucsWeights {
    let mut d = Dice(7);
    HtdemucsWeights {
        encoder: vec![d.encoder(4, 16, true), d.encoder(16, 384, true)],
        tencoder: vec![d.encoder(2, 16, false), d.encoder(16, 384, false)],
        freq_emb: d.many(4 * 16, 0.0, 0.4),
        freq_emb_rows: 4,
        freq_emb_columns: 16,
        transformer: TransformerW {
            layers: vec![d.layer(false), d.layer(true)],
            layers_t: vec![d.layer(false), d.layer(true)],
            norm_in: d.norm(DIM),
            norm_in_t: d.norm(DIM),
            channels: DIM,
        },
        channel_upsampler: d.linear(DIM, 384),
        channel_upsampler_t: d.linear(DIM, 384),
        channel_downsampler: d.linear(384, DIM),
        channel_downsampler_t: d.linear(384, DIM),
        decoder: vec![d.decoder(384, 16, true), d.decoder(16, 8, true)],
        tdecoder: vec![d.decoder(384, 16, false), d.decoder(16, 4, false)],
    }
}

fn config() -> ModelConfig {
    ModelConfig {
        t_layers: 2,
        heads: Heads { count: 8, scale: 0.125f32.to_bits() },
        depth: 2,
        stride: 4,
    }
}

// ------------------------------------------------------------- the simulated device

struct Device {
    memory: HashMap<(u32, usize), Vec<f32>>,
}

fn key(buffer: BufferId) -> (u32, usize) {
    (buffer.plan, buffer.index)
}

fn erf(x: f64) -> f64 {
    let t = 1.0 / (1.0 + 0.3275911 * x.abs());
    let poly = t
        * (0.254829592
            + t * (-0.284496736 + t * (1.421413741 + t * (-1.453152027 + t * 1.061405429))));
    let y = 1.0 - poly * (-x * x).exp();
    if x >= 0.0 {
        y
    } else {
        -y
    }
}

fn gelu(x: f64) -> f64 {
    0.5 * x * (1.0 + erf(x * std::f64::consts::FRAC_1_SQRT_2))
}

fn sigmoid(x: f64) -> f64 {
    1.0 / (1.0 + (-x).exp())
}

impl Device {
    fn make(&mut self, plan: u32, index: usize, bytes: u64, words: &[u32]) {
        // What nobody wrote is no number.
        let mut room = vec![f32::NAN; bytes as usize / 4];
        for (place, word) in room.iter_mut().zip(words) {
            *place = f32::from_bits(*word);
        }
        self.memory.insert((plan, index), room);
    }

    fn launch(&mut self, d: &Dispatch) {
        let mut parts: Vec<Vec<f32>> = Vec::new();
        let mut words: Vec<Vec<usize>> = Vec::new();
        let mut bits: Vec<Vec<u32>> = Vec::new();
        let mut places: Vec<((u32, usize), usize)> = Vec::new();
        for entry in &d.table.entries {
            match entry {
                Binding::Storage { buffer, offset, size } => {
                    let at = *offset as usize / 4;
                    let len = *size as usize / 4;
                    parts.push(self.memory[&key(*buffer)][at..at + len].to_vec());
                    places.push((key(*buffer), at));
                }
                Binding::Uniform { words: block, .. } => {
                    words.push(block.iter().map(|w| *w as usize).collect());
                    bits.push(block.clone());
                }
            }
        }
        let out = compute(d, &mut parts, &words, &bits);
        let (place, at) = places[out];
        let memory = self.memory.get_mut(&place).unwrap();
        memory[at..at + parts[out].len()].copy_from_slice(&parts[out]);
    }
}

fn product(p: &mut [Vec<f32>], w: &[usize], batches: usize, transb: bool) {
    let (m, n, k) = (w[0], w[1], w[2]);
    for z in 0..batches {
        let (outer, inner) = (z / w[6], z % w[6]);
        let a = outer * w[7] + inner * w[8];
        let b = outer * w[9] + inner * w[10];
        let c = outer * w[11] + inner * w[12];
        for row in 0..m {
            for col in 0..n {
                let mut sum = 0.0f64;
                for i in 0..k {
                    let right = if transb { b + col * w[4] + i } else { b + i * w[4] + col };
                    sum += p[0][a + row * w[3] + i] as f64 * p[1][right] as f64;
                }
                p[2][c + row * w[5] + col] = sum as f32;
            }
        }
    }
}

/// Performs a kernel on its operands; the one that is written comes back.
fn compute(d: &Dispatch, p: &mut [Vec<f32>], w: &[Vec<usize>], bits: &[Vec<u32>]) -> usize {
    match d.kernel {
        Kernel::Gemm
        | Kernel::GemmBatched
        | Kernel::GemmBatchedBm64Bn128
        | Kernel::GemmBatchedBm64Bn128Coalesced
        | Kernel::GemmBatchedBm96Bn128
        | Kernel::GemmBatchedBn64
        | Kernel::GemmBatchedBm64 => {
            product(p, &w[0], d.grid.2 as usize, false);
            2
        }
        Kernel::GemmTransb
        | Kernel::GemmTransbPlain
        | Kernel::GemmTransbBn64
        | Kernel::GemmTransbBm64 => {
            product(p, &w[0], d.grid.2 as usize, true);
            2
        }
        Kernel::GemmConvDirect | Kernel::GemmConvDirectBatched => {
            let (ow, oh, width, h) = (w[1][0], w[1][1], w[1][2], w[1][3]);
            let (sw, sh) = (w[2][0] >> 16, w[2][0] & 0xffff);
            let (pw, ph) = (w[2][1] >> 16, w[2][1] & 0xffff);
            let (kh, kw, ic) = (w[2][2] >> 16, w[2][2] & 0xffff, w[2][3]);
            let dims = &w[0];
            assert_eq!((dims[1], dims[2]), (oh * ow, ic * kh * kw));
            for z in 0..d.grid.2 as usize {
                let (from, to) = (z * dims[9], z * dims[11]);
                for oc in 0..dims[0] {
                    for at in 0..oh * ow {
                        let mut sum = 0.0f64;
                        for tap in 0..dims[2] {
                            let (c, ky, kx) = (tap / (kh * kw), tap % (kh * kw) / kw, tap % kw);
                            let (iy, ix) = (at / ow * sh + ky, at % ow * sw + kx);
                            if iy >= ph && iy < h + ph && ix >= pw && ix < width + pw {
                                sum += p[0][oc * dims[3] + tap] as f64
                                    * p[1][from + (c * h + iy - ph) * width + ix - pw] as f64;
                            }
                        }
                        p[2][to + oc * dims[5] + at] = sum as f32;
                    }
                }
            }
            2
        }
        Kernel::Im2col => {
            let (ic, kh, kw, h) = (w[0][0], w[0][1], w[0][2], w[0][3]);
            let (width, oh, ow, batch) = (w[1][0], w[1][1], w[1][2], w[1][3]);
            let (sh, sw, ph, pw) = (w[2][0], w[2][1], w[2][2], w[2][3]);
            let (pitch, rows) = (w[3][0], w[3][1]);
            assert_eq!(w[3][2], d.grid.0 as usize * 256);
            for flat in 0..batch * rows {
                let (b, krow) = (flat / rows, flat % rows);
                if krow >= ic * kh * kw {
                    continue;
                }
                let (c, ky, kx) = (krow / (kh * kw), krow % (kh * kw) / kw, krow % kw);
                for oy in 0..oh {
                    for ox in 0..ow {
                        let (iy, ix) = (oy * sh + ky, ox * sw + kx);
                        let inside = iy >= ph && iy < h + ph && ix >= pw && ix < width + pw;
                        p[1][(b * rows + krow) * pitch + oy * ow + ox] = if inside {
                            p[0][((b * ic + c) * h + iy - ph) * width + ix - pw]
                        } else {
                            0.0
                        };
                    }
                }
            }
            1
        }
        Kernel::Col2im => {
            let (oc, kh, kw, oh) = (w[0][0], w[0][1], w[0][2], w[0][3]);
            let (ow, sh, sw, ih) = (w[1][0], w[1][1], w[1][2], w[1][3]);
            let (iw, batch, pitch, rows) = (w[2][0], w[2][1], w[2][2], w[2][3]);
            for i in 0..batch * oc * oh * ow {
                let (b, c) = (i / (oc * oh * ow), i / (oh * ow) % oc);
                let (y, x) = (i / ow % oh, i % ow);
                let mut sum = 0.0f64;
                for ky in 0..kh.min(y + 1) {
                    for kx in 0..kw.min(x + 1) {
                        let (dy, dx) = (y - ky, x - kx);
                        if dy % sh == 0 && dx % sw == 0 && dy / sh < ih && dx / sw < iw {
                            let tap = b * rows + c * kh * kw + ky * kw + kx;
                            sum += p[0][tap * pitch + dy / sh * iw + dx / sw] as f64;
                        }
                    }
                }
                p[1][i] = sum as f32;
            }
            1
        }
        Kernel::AddRowBiasInPlace => {
            for i in 0..w[0][0] * w[0][1] {
                p[0][i] += p[1][i / w[0][1] % w[0][2]];
            }
            0
        }
        Kernel::ChannelAffineActInPlace => {
            for i in 0..w[0][3] {
                let c = i / w[0][1] % w[0][0];
                let v = p[0][i] as f64 * p[1][c] as f64 + p[2][c] as f64;
                p[0][i] = match w[0][2] {
                    0 => v,
                    1 => v.max(0.0),
                    2 => gelu(v),
                    _ => v * sigmoid(v),
                } as f32;
            }
            0
        }
        // The split form computes the same from the same operands.
        Kernel::GroupNormPartial => 0,
        Kernel::GroupNormCombine => 0,
        Kernel::GroupNorm | Kernel::GroupNormApply | Kernel::GroupNormApplyFromPartials => {
            let (groups, per, len, row_stride) = (w[0][0], w[0][1], w[0][2], w[0][3]);
            let (rows, len_stride, channel_stride) = (w[1][0], w[1][1], w[1][2]);
            let eps = f32::from_bits(bits[1][3]) as f64;
            for row in 0..rows {
                for g in 0..groups {
                    let at = |c: usize, l: usize| {
                        row * row_stride + (g * per + c) * channel_stride + l * len_stride
                    };
                    let places: Vec<(usize, usize)> = (0..per)
                        .flat_map(|c| (0..len).map(move |l| (c, l)))
                        .map(|(c, l)| (g * per + c, at(c, l)))
                        .collect();
                    let n = places.len() as f64;
                    let mean = places.iter().map(|(_, i)| p[0][*i] as f64).sum::<f64>() / n;
                    let var =
                        places.iter().map(|(_, i)| (p[0][*i] as f64 - mean).powi(2)).sum::<f64>() / n;
                    for (c, i) in places {
                        let v = (p[0][i] as f64 - mean) / (var + eps).sqrt();
                        p[3][i] = (v * p[1][c] as f64 + p[2][c] as f64) as f32;
                    }
                }
            }
            3
        }
        Kernel::Glu => {
            let half = w[0][1];
            for i in 0..w[0][0] * half {
                let at = i / half * 2 * half + i % half;
                p[1][i] = (p[0][at] as f64 * sigmoid(p[0][at + half] as f64)) as f32;
            }
            1
        }
        Kernel::Transpose => {
            let (batch, rows, cols, width) = (w[0][0], w[0][1], w[0][2], w[0][3]);
            for b in 0..batch {
                for r in 0..rows {
                    for c in 0..cols {
                        for i in 0..width {
                            p[1][((b * cols + c) * rows + r) * width + i] =
                                p[0][((b * rows + r) * cols + c) * width + i];
                        }
                    }
                }
            }
            1
        }
        Kernel::Copy => {
            let source = p[0].clone();
            p[1][..w[0][0]].copy_from_slice(&source[..w[0][0]]);
            1
        }
        Kernel::CopyPitched => {
            let (batch, rows, cols, src) = (w[0][0], w[0][1], w[0][2], w[0][3]);
            for b in 0..batch {
                for r in 0..rows {
                    for c in 0..cols {
                        p[1][(b * w[1][0] + r) * w[1][1] + c] = p[0][(b * rows + r) * src + c];
                    }
                }
            }
            1
        }
        Kernel::CropRows => {
            let (stride, rows, cols, skip) = (w[0][0], w[0][1], w[0][2], w[0][3]);
            for i in 0..w[1][0] * rows * cols {
                let (b, r, c) = (i / (rows * cols), i / cols % rows, i % cols);
                p[1][i] = p[0][b * stride + (r + skip) * cols + c];
            }
            1
        }
        Kernel::FillZero => {
            p[0][..w[0][0]].fill(0.0);
            0
        }
        Kernel::GeluInPlace => {
            for v in p[0][..w[0][0]].iter_mut() {
                *v = gelu(*v as f64) as f32;
            }
            0
        }
        Kernel::AddInPlace | Kernel::AddInPlaceVec4 => {
            for i in 0..w[0][0] {
                let at = if w[0][1] == 0 { i } else { i % w[0][1] };
                p[0][i] += p[1][at];
            }
            0
        }
        Kernel::Softmax | Kernel::SoftmaxScaledWarp => {
            let (rows, cols) = (w[0][0], w[0][1]);
            let scale = f32::from_bits(bits[0][2]) as f64;
            for r in 0..rows {
                let row = &p[0][r * cols..(r + 1) * cols];
                let scaled: Vec<f64> = row.iter().map(|v| *v as f64 * scale).collect();
                let probabilities = softmax(&scaled);
                for (c, v) in probabilities.into_iter().enumerate() {
                    p[1][r * cols + c] = v as f32;
                }
            }
            1
        }
        other => panic!("no such kernel on this device: {other:?}"),
    }
}

fn softmax(row: &[f64]) -> Vec<f64> {
    let top = row.iter().cloned().fold(f64::NEG_INFINITY, f64::max);
    let powers: Vec<f64> = row.iter().map(|v| (v - top).exp()).collect();
    let sum: f64 = powers.iter().sum();
    powers.into_iter().map(|v| v / sum).collect()
}

// ---------------------------------------------------------------- the network by hand

/// Channels of equal planes.
type Planes = Vec<Vec<f64>>;
/// Rows of features.
type Rows = Vec<Vec<f64>>;

fn f(words: &[u32]) -> Vec<f64> {
    words.iter().map(|w| f32::from_bits(*w) as f64).collect()
}

/// A convolution of `(channels, h, w)` planes.
fn conv(
    x: &Planes,
    (h, w): (usize, usize),
    c: &ConvW,
    stride: (usize, usize),
    pad: (usize, usize),
    dilation: usize,
) -> (Planes, (usize, usize)) {
    let (kh, kw) = if c.shape.len() == 4 { (c.shape[2], c.shape[3]) } else { (1, c.shape[2]) };
    let oh = (h + 2 * pad.0 - kh) / stride.0 + 1;
    let ow = (w + 2 * pad.1 - (kw - 1) * dilation - 1) / stride.1 + 1;
    let (weight, bias) = (f(&c.weight), f(&c.bias));
    let mut out = vec![vec![0.0; oh * ow]; c.shape[0]];
    for (o, plane) in out.iter_mut().enumerate() {
        for y in 0..oh {
            for x0 in 0..ow {
                let mut sum = bias[o];
                for (i, input) in x.iter().enumerate() {
                    for ky in 0..kh {
                        for kx in 0..kw {
                            let (iy, ix) = (y * stride.0 + ky, x0 * stride.1 + kx * dilation);
                            if iy >= pad.0 && iy < h + pad.0 && ix >= pad.1 && ix < w + pad.1 {
                                sum += weight[((o * x.len() + i) * kh + ky) * kw + kx]
                                    * input[(iy - pad.0) * w + ix - pad.1];
                            }
                        }
                    }
                }
                plane[y * ow + x0] = sum;
            }
        }
    }
    (out, (oh, ow))
}

/// A transposed convolution: every input spreads its taps.
fn conv_tr(
    x: &Planes,
    (h, w): (usize, usize),
    c: &ConvW,
    stride: (usize, usize),
) -> (Planes, (usize, usize)) {
    let (kh, kw) = if c.shape.len() == 4 { (c.shape[2], c.shape[3]) } else { (1, c.shape[2]) };
    let (oh, ow) = ((h - 1) * stride.0 + kh, (w - 1) * stride.1 + kw);
    let (weight, bias) = (f(&c.weight), f(&c.bias));
    let mut out: Planes = (0..c.shape[1]).map(|o| vec![bias[o]; oh * ow]).collect();
    for (i, input) in x.iter().enumerate() {
        for (o, plane) in out.iter_mut().enumerate() {
            for at in 0..h * w {
                for ky in 0..kh {
                    for kx in 0..kw {
                        let (y, x0) = (at / w * stride.0 + ky, at % w * stride.1 + kx);
                        plane[y * ow + x0] +=
                            input[at] * weight[((i * c.shape[1] + o) * kh + ky) * kw + kx];
                    }
                }
            }
        }
    }
    (out, (oh, ow))
}

fn map(x: &mut Planes, f: impl Fn(f64) -> f64) {
    for v in x.iter_mut().flatten() {
        *v = f(*v);
    }
}

/// One group over everything, an affine per channel.
fn group_norm(x: &mut Planes, weight: &[u32], bias: &[u32]) {
    let n = x.iter().map(Vec::len).sum::<usize>() as f64;
    let mean = x.iter().flatten().sum::<f64>() / n;
    let var = x.iter().flatten().map(|v| (v - mean).powi(2)).sum::<f64>() / n;
    let (weight, bias) = (f(weight), f(bias));
    for (c, plane) in x.iter_mut().enumerate() {
        for v in plane.iter_mut() {
            *v = (*v - mean) / (var + 1e-5).sqrt() * weight[c] + bias[c];
        }
    }
}

fn glu(x: &Planes) -> Planes {
    let half = x.len() / 2;
    (0..half)
        .map(|c| x[c].iter().zip(&x[half + c]).map(|(v, g)| v * sigmoid(*g)).collect())
        .collect()
}

/// The residual branches of one `(channels, time)` row.
fn branches(x: &mut Planes, d: &DConvW) {
    for (depth, layer) in d.layers.iter().enumerate() {
        let time = x[0].len();
        let dilation = 1 << depth;
        let (mut y, _) = conv(x, (1, time), &layer.conv1, (1, 1), (0, dilation), dilation);
        group_norm(&mut y, &layer.norm1_weight, &layer.norm1_bias);
        map(&mut y, gelu);
        let (mut z, _) = conv(&y, (1, time), &layer.conv2, (1, 1), (0, 0), 1);
        group_norm(&mut z, &layer.norm2_weight, &layer.norm2_bias);
        let gamma = f(&layer.gamma);
        for (c, plane) in glu(&z).into_iter().enumerate() {
            for (v, add) in x[c].iter_mut().zip(plane) {
                *v += gamma[c] * add;
            }
        }
    }
}

/// The branches of an image: every row of frequencies by itself.
fn branches_by_row(x: &mut Planes, (h, w): (usize, usize), d: &DConvW) {
    for y in 0..h {
        let mut row: Planes = x.iter().map(|p| p[y * w..(y + 1) * w].to_vec()).collect();
        branches(&mut row, d);
        for (plane, part) in x.iter_mut().zip(row) {
            plane[y * w..(y + 1) * w].copy_from_slice(&part);
        }
    }
}

fn apply(l: &LinearW, x: &Rows) -> Rows {
    project(&l.weight, &l.bias, x)
}

fn project(weight: &[u32], bias: &[u32], x: &Rows) -> Rows {
    let (weight, bias) = (f(weight), f(bias));
    x.iter()
        .map(|row| {
            (0..bias.len())
                .map(|o| {
                    let w = &weight[o * row.len()..(o + 1) * row.len()];
                    bias[o] + row.iter().zip(w).map(|(a, b)| a * b).sum::<f64>()
                })
                .collect()
        })
        .collect()
}

fn layer_norm(n: &LayerNormW, x: &Rows) -> Rows {
    let (weight, bias) = (f(&n.weight), f(&n.bias));
    x.iter()
        .map(|row| {
            let n = row.len() as f64;
            let mean = row.iter().sum::<f64>() / n;
            let var = row.iter().map(|v| (v - mean).powi(2)).sum::<f64>() / n;
            row.iter()
                .enumerate()
                .map(|(c, v)| (v - mean) / (var + 1e-5).sqrt() * weight[c] + bias[c])
                .collect()
        })
        .collect()
}

fn turned(x: &Rows) -> Rows {
    (0..x[0].len()).map(|c| x.iter().map(|row| row[c]).collect()).collect()
}

fn add_scaled(x: &mut Rows, gamma: &[u32], y: &Rows) {
    let gamma = f(gamma);
    for (row, add) in x.iter_mut().zip(y) {
        for (c, v) in row.iter_mut().enumerate() {
            *v += gamma[c] * add[c];
        }
    }
}

/// A layer of the transformer; `other` is what a cross layer attends to.
fn transform(l: &TransformerLayerW, x: &Rows, other: Option<&Rows>) -> Rows {
    let queries = layer_norm(&l.norm1, x);
    let (keys, feed) = match other {
        Some(k) => (layer_norm(&l.norm2, k), l.norm3.as_ref().unwrap()),
        None => (layer_norm(&l.norm1, x), &l.norm2),
    };
    let q = project(&l.q_weight, &l.q_bias, &queries);
    let k = project(&l.k_weight, &l.k_bias, &keys);
    let v = project(&l.v_weight, &l.v_bias, &keys);
    let width = DIM / 8;
    let mut mixed = vec![vec![0.0; DIM]; x.len()];
    for head in 0..8 {
        let at = head * width..(head + 1) * width;
        for (t, out) in mixed.iter_mut().enumerate() {
            let scores: Vec<f64> = k
                .iter()
                .map(|key| {
                    0.125 * q[t][at.clone()].iter().zip(&key[at.clone()]).map(|(a, b)| a * b).sum::<f64>()
                })
                .collect();
            for (p, value) in softmax(&scores).into_iter().zip(&v) {
                for c in at.clone() {
                    out[c] += p * value[c];
                }
            }
        }
    }
    let mut x = x.clone();
    add_scaled(&mut x, &l.gamma1, &apply(&l.out_proj, &mixed));
    let mut hidden = apply(&l.linear1, &layer_norm(feed, &x));
    map(&mut hidden, gelu);
    add_scaled(&mut x, &l.gamma2, &apply(&l.linear2, &hidden));
    let mut channels = turned(&x);
    group_norm(&mut channels, &l.norm_out.weight, &l.norm_out.bias);
    turned(&channels)
}

struct Outputs {
    freq: Planes,
    time: Planes,
}

/// The whole network on one segment.
fn network(
    w: &HtdemucsWeights,
    spectrogram: &Planes,
    (bins, frames): (usize, usize),
    waveform: &Planes,
    positions: &Rows,
    positions_t: &Rows,
) -> Outputs {
    let mut x = spectrogram.clone();
    let mut size = (bins, frames);
    let mut saved: Vec<Planes> = Vec::new();
    for (depth, l) in w.encoder.iter().enumerate() {
        let (mut y, out) = conv(&x, size, &l.conv, (4, 1), (2, 0), 1);
        size = out;
        map(&mut y, gelu);
        branches_by_row(&mut y, size, &l.dconv);
        x = glu(&conv(&y, size, &l.rewrite, (1, 1), (0, 0), 1).0);
        if depth == 0 {
            let emb = f(&w.freq_emb);
            for (c, plane) in x.iter_mut().enumerate() {
                for (i, v) in plane.iter_mut().enumerate() {
                    *v += emb[i / frames * w.freq_emb_columns + c];
                }
            }
        }
        saved.push(x.clone());
    }
    let mut xt = waveform.clone();
    let mut saved_t: Vec<Planes> = Vec::new();
    let mut lengths = Vec::new();
    for l in &w.tencoder {
        lengths.push(xt[0].len());
        let wide = xt[0].len().div_ceil(4) * 4;
        for plane in xt.iter_mut() {
            plane.resize(wide, 0.0);
        }
        let (mut y, (_, time)) = conv(&xt, (1, wide), &l.conv, (1, 4), (0, 2), 1);
        map(&mut y, gelu);
        branches(&mut y, &l.dconv);
        xt = glu(&conv(&y, (1, time), &l.rewrite, (1, 1), (0, 0), 1).0);
        saved_t.push(xt.clone());
    }

    // Tokens go frame by frame, the frequencies of a frame together.
    let (h, t) = size;
    let order: Vec<usize> = (0..h * t).map(|i| i % h * t + i / h).collect();
    let tokens: Rows = order.iter().map(|i| x.iter().map(|p| p[*i]).collect()).collect();
    let mut s = layer_norm(&w.transformer.norm_in, &apply(&w.channel_upsampler, &tokens));
    let mut st =
        layer_norm(&w.transformer.norm_in_t, &apply(&w.channel_upsampler_t, &turned(&xt)));
    for (rows, add) in [(&mut s, positions), (&mut st, positions_t)] {
        for (row, p) in rows.iter_mut().zip(add) {
            for (v, a) in row.iter_mut().zip(p) {
                *v += a;
            }
        }
    }
    for (l, lt) in w.transformer.layers.iter().zip(&w.transformer.layers_t) {
        if l.is_cross {
            let before = s.clone();
            s = transform(l, &s, Some(&st));
            st = transform(lt, &st, Some(&before));
        } else {
            s = transform(l, &s, None);
            st = transform(lt, &st, None);
        }
    }
    let down = apply(&w.channel_downsampler, &s);
    let mut x: Planes = vec![vec![0.0; h * t]; 384];
    for (token, row) in down.iter().enumerate() {
        for (c, v) in row.iter().enumerate() {
            x[c][order[token]] = *v;
        }
    }
    let mut xt = turned(&apply(&w.channel_downsampler_t, &st));

    for (depth, (l, lt)) in w.decoder.iter().zip(&w.tdecoder).enumerate() {
        let last = depth + 1 == w.decoder.len();
        for (plane, skip) in x.iter_mut().zip(saved.pop().unwrap()) {
            for (v, s) in plane.iter_mut().zip(skip) {
                *v += s;
            }
        }
        let mut y = glu(&conv(&x, size, &l.rewrite, (1, 1), (1, 1), 1).0);
        branches_by_row(&mut y, size, &l.dconv);
        let (z, (tall, wide)) = conv_tr(&y, size, &l.conv_tr, (4, 1));
        x = z.into_iter().map(|p| p[2 * wide..(tall - 2) * wide].to_vec()).collect();
        size = (tall - 4, wide);

        for (plane, skip) in xt.iter_mut().zip(saved_t.pop().unwrap()) {
            for (v, s) in plane.iter_mut().zip(skip) {
                *v += s;
            }
        }
        let time = xt[0].len();
        let mut y = glu(&conv(&xt, (1, time), &lt.rewrite, (1, 1), (0, 1), 1).0);
        branches(&mut y, &lt.dconv);
        let (z, _) = conv_tr(&y, (1, time), &lt.conv_tr, (1, 4));
        let length = lengths.pop().unwrap();
        xt = z.into_iter().map(|p| p[2..2 + length].to_vec()).collect();
        if !last {
            map(&mut x, gelu);
            map(&mut xt, gelu);
        }
    }
    Outputs { freq: x, time: xt }
}

// ------------------------------------------------------------------------ the test

fn planes(words: &[u32], channels: usize) -> Planes {
    f(words).chunks(words.len() / channels).map(<[f64]>::to_vec).collect()
}

fn compare(got: &[f32], want: &Planes, what: &str) {
    let want: Vec<f64> = want.iter().flatten().cloned().collect();
    assert_eq!(got.len(), want.len(), "{what}");
    let scale = want.iter().fold(0.0f64, |m, v| m.max(v.abs()));
    assert!(scale > 0.01, "{what} is all but zero");
    for (i, (g, w)) in got.iter().zip(&want).enumerate() {
        assert!((*g as f64 - w).abs() <= 1e-5 * scale, "{what} at {i}: {g} for {w} ({scale})");
    }
}

fn run(batch: usize, samples: usize, kernels: Kernels) -> Vec<Kernel> {
    let w = weights();
    let mut pass = Pass::new(0, LIMIT);
    let loaded = GpuWeights::load(&mut pass, &w, &config());
    let mut device = Device { memory: HashMap::new() };
    for (index, command) in pass.finish().unwrap().into_iter().enumerate() {
        match command {
            Command::Upload { bytes, words, .. } => device.make(0, index, bytes, &words),
            other => panic!("{other:?}"),
        }
    }

    let seg = Segments { batch, channels: 4, bins: 16, frames: 4, channels_t: 2, samples };
    let mut d = Dice(99);
    let spectrogram = d.many(batch * 4 * 16 * 4, 0.0, 2.0);
    let waveform = d.many(batch * 2 * samples, 0.0, 2.0);
    let positions = d.many(4 * DIM, 0.0, 1.0);
    let positions_t = d.many(samples.div_ceil(4).div_ceil(4) * DIM, 0.0, 1.0);

    let runner = GpuHtdemucsRunner::new(kernels, loaded, config(), LIMIT);
    let mut read: Vec<Vec<f32>> = Vec::new();
    let mut used: Vec<Kernel> = Vec::new();
    for (index, command) in runner.forward_branch_outputs(3, seg).unwrap().into_iter().enumerate() {
        match command {
            Command::Alloc { bytes, .. } => device.make(3, index, bytes, &[]),
            Command::Upload { bytes, words, .. } => device.make(3, index, bytes, &words),
            Command::Input { bytes, input, .. } => {
                let words = match input {
                    HostInput::Spectrogram => &spectrogram,
                    HostInput::Waveform => &waveform,
                    HostInput::SpectrogramPositions => &positions,
                    HostInput::WaveformPositions => &positions_t,
                };
                device.make(3, index, bytes, words);
            }
            Command::Dispatch(d) => {
                used.push(d.kernel);
                device.launch(&d);
            }
            Command::Trace { .. } => {}
            Command::Readback { tensor } => {
                let at = tensor.offset as usize / 4;
                let len: usize = tensor.shape.iter().product();
                read.push(device.memory[&key(tensor.buffer)][at..at + len].to_vec());
            }
        }
    }
    assert_eq!(read.len(), 2);

    let rows = |words: &[u32]| f(words).chunks(DIM).map(<[f64]>::to_vec).collect::<Rows>();
    for b in 0..batch {
        let part = |words: &[u32]| {
            let each = words.len() / batch;
            words[b * each..(b + 1) * each].to_vec()
        };
        let want = network(
            &w,
            &planes(&part(&spectrogram), 4),
            (16, 4),
            &planes(&part(&waveform), 2),
            &rows(&positions),
            &rows(&positions_t),
        );
        let got = |all: &[f32]| all[b * all.len() / batch..(b + 1) * all.len() / batch].to_vec();
        compare(&got(&read[0]), &want.freq, "spectrogram");
        compare(&got(&read[1]), &want.time, "waveform");
    }
    used
}

fn settings() -> Settings {
    Settings::read(None, None, None, None, None, None, None, None, None)
}

#[test]
fn a_planned_pass_computes_the_network() {
    let used = run(1, 98, Kernels::new(false, settings()));
    assert!(used.contains(&Kernel::Softmax) && used.contains(&Kernel::GroupNorm));
}

#[test]
fn stacked_segments_do_not_mix() {
    let square = Settings { bm64: false, bm96: false, ..settings() };
    let used = run(2, 98, Kernels::new(false, square));
    assert!(!used.contains(&Kernel::GemmBatchedBm64Bn128));
}

#[test]
fn convolutions_without_patches_compute_the_same() {
    let direct = Settings { conv_direct: true, ..settings() };
    let used = run(1, 512, Kernels::new(false, direct));
    assert!(used.contains(&Kernel::GemmConvDirect));
    let used = run(2, 512, Kernels::new(false, direct));
    assert!(used.contains(&Kernel::GemmConvDirectBatched));
}

#[test]
fn other_forms_of_the_kernels_compute_the_same() {
    let other = Settings {
        coalesced_b: true,
        transb_plain: false,
        combine_work: 0,
        ..settings()
    };
    let used = run(1, 4096, Kernels::new(true, other));
    for kernel in [
        Kernel::SoftmaxScaledWarp,
        Kernel::GemmBatchedBm64Bn128Coalesced,
        Kernel::GemmTransb,
        Kernel::GroupNormCombine,
        Kernel::GroupNormApply,
    ] {
        assert!(used.contains(&kernel), "{kernel:?}");
    }
    let replayed = run(1, 4096, Kernels::new(true, Settings { combine_stats: false, ..other }));
    assert!(replayed.contains(&Kernel::GroupNormApplyFromPartials));
}
