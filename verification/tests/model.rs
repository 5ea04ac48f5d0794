use demucs_core::error::{Detail, Error};
use demucs_core::gpu::htdemucs::{GpuHtdemucsRunner, GpuWeights, ModelConfig, Segments};
use demucs_core::gpu::kernels::{Kernels, Settings};
use demucs_core::gpu::loader::fused_qkv;
use demucs_core::gpu::pass::Pass;
use demucs_core::gpu::pipelines::Kernel;
use demucs_core::gpu::recorder::{Binding, Command, HostInput};
use demucs_core::gpu::schedule::last_uses;
use demucs_core::gpu::tensor::BufferId;
use demucs_core::gpu::transformer::Heads;
use demucs_core::gpu::weights::{
    upload_conv, upload_conv_tr, upload_widened_conv, ConvW, DConvLayerW, DConvW, DecLayerW,
    EncLayerW, HtdemucsWeights, LayerNormW, LinearW, TransformerLayerW, TransformerW,
};

const LIMIT: u64 = 1 << 31;

fn numbers(n: usize) -> Vec<u32> {
    (0..n).map(|i| ((i % 7) as f32).to_bits()).collect()
}

fn conv(shape: &[usize]) -> ConvW {
    ConvW {
        weight: numbers(shape.iter().product()),
        bias: numbers(shape[0]),
        shape: shape.to_vec(),
    }
}

fn conv_tr(shape: &[usize]) -> ConvW {
    ConvW { bias: numbers(shape[1]), ..conv(shape) }
}

fn dconv(channels: usize) -> DConvW {
    let hidden = channels / 8;
    let layer = || DConvLayerW {
        conv1: conv(&[hidden, channels, 3]),
        norm1_weight: numbers(hidden),
        norm1_bias: numbers(hidden),
        conv2: conv(&[2 * channels, hidden, 1]),
        norm2_weight: numbers(2 * channels),
        norm2_bias: numbers(2 * channels),
        gamma: numbers(channels),
    };
    DConvW { channels, layers: vec![layer(), layer()] }
}

fn norm(dim: usize) -> LayerNormW {
    LayerNormW { weight: numbers(dim), bias: numbers(dim) }
}

fn linear(outputs: usize, inputs: usize) -> LinearW {
    LinearW {
        weight: numbers(outputs * inputs),
        bias: numbers(outputs),
        out_features: outputs,
        in_features: inputs,
    }
}

fn layer(is_cross: bool) -> TransformerLayerW {
    let dim = 512;
    TransformerLayerW {
        is_cross,
        q_weight: numbers(dim * dim),
        q_bias: numbers(dim),
        k_weight: numbers(dim * dim),
        k_bias: numbers(dim),
        v_weight: numbers(dim * dim),
        v_bias: numbers(dim),
        out_proj: linear(dim, dim),
        linear1: linear(64, dim),
        linear2: linear(dim, 64),
        norm1: norm(dim),
        norm2: norm(dim),
        norm3: if is_cross { Some(norm(dim)) } else { None },
        norm_out: norm(dim),
        gamma1: numbers(dim),
        gamma2: numbers(dim),
    }
}

fn weights() -> HtdemucsWeights {
    HtdemucsWeights {
        encoder: vec![
            EncLayerW { conv: conv(&[16, 4, 8, 1]), rewrite: conv(&[32, 16, 1, 1]), dconv: dconv(16) },
            EncLayerW { conv: conv(&[384, 16, 8, 1]), rewrite: conv(&[768, 384, 1, 1]), dconv: dconv(384) },
        ],
        tencoder: vec![
            EncLayerW { conv: conv(&[16, 2, 8]), rewrite: conv(&[32, 16, 1]), dconv: dconv(16) },
            EncLayerW { conv: conv(&[384, 16, 8]), rewrite: conv(&[768, 384, 1]), dconv: dconv(384) },
        ],
        freq_emb: numbers(16 * 16),
        freq_emb_rows: 16,
        freq_emb_columns: 16,
        transformer: TransformerW {
            layers: vec![layer(false), layer(true)],
            layers_t: vec![layer(false), layer(true)],
            norm_in: norm(512),
            norm_in_t: norm(512),
            channels: 512,
        },
        channel_upsampler: linear(512, 384),
        channel_upsampler_t: linear(512, 384),
        channel_downsampler: linear(384, 512),
        channel_downsampler_t: linear(384, 512),
        decoder: vec![
            DecLayerW { rewrite: conv(&[768, 384, 3, 3]), dconv: dconv(384), conv_tr: conv_tr(&[384, 16, 8, 1]) },
            DecLayerW { rewrite: conv(&[32, 16, 3, 3]), dconv: dconv(16), conv_tr: conv_tr(&[16, 8, 8, 1]) },
        ],
        tdecoder: vec![
            DecLayerW { rewrite: conv(&[768, 384, 3]), dconv: dconv(384), conv_tr: conv_tr(&[384, 16, 8]) },
            DecLayerW { rewrite: conv(&[32, 16, 3]), dconv: dconv(16), conv_tr: conv_tr(&[16, 4, 8]) },
        ],
    }
}

fn config() -> ModelConfig {
    ModelConfig {
        t_layers: 2,
        heads: Heads { count: 8, scale: 0.125f32.to_bits() },
        depth: 2,
        stride: 4,
    }
}

fn segments() -> Segments {
    Segments { batch: 1, channels: 4, bins: 64, frames: 8, channels_t: 2, samples: 1024 }
}

fn kernels() -> Kernels {
    Kernels::new(false, Settings::read(None, None, None, None, None, None, None, None, None))
}

/// The size of the buffer each command of a plan makes, if it makes one.
fn sizes(commands: &[Command]) -> Vec<Option<u64>> {
    commands
        .iter()
        .map(|c| match c {
            Command::Alloc { bytes, .. }
            | Command::Upload { bytes, .. }
            | Command::Input { bytes, .. } => Some(*bytes),
            _ => None,
        })
        .collect()
}

fn loaded() -> (GpuWeights, Vec<Command>) {
    let mut pass = Pass::new(0, LIMIT);
    let w = GpuWeights::load(&mut pass, &weights(), &config());
    (w, pass.finish().unwrap())
}

/// Every binding lies inside the buffer it names, and names one made before.
fn check_bindings(made: &[Option<u64>], commands: &[Command]) {
    let own = sizes(commands);
    let size_of = |buffer: BufferId, at: usize| {
        let size = if buffer.plan == 0 {
            made[buffer.index]
        } else {
            assert!(buffer.index < at);
            own[buffer.index]
        };
        size.expect("a buffer")
    };
    for (at, command) in commands.iter().enumerate() {
        match command {
            Command::Dispatch(d) => {
                for entry in &d.table.entries {
                    match entry {
                        Binding::Storage { buffer, offset, size } => {
                            assert_eq!(offset % 32, 0, "{}", d.label);
                            assert!(*size > 0, "{}", d.label);
                            assert!(offset + size <= size_of(*buffer, at), "{} {at}", d.label);
                        }
                        Binding::Uniform { words, size } => {
                            assert!(words.len() as u64 * 4 <= *size);
                        }
                    }
                }
                for axis in [d.grid.0, d.grid.1, d.grid.2] {
                    assert!((1..=65535).contains(&axis), "{} {:?}", d.label, d.grid);
                }
            }
            Command::Trace { tensor, .. } | Command::Readback { tensor } => {
                let bytes = tensor.shape.iter().product::<usize>() as u64 * 4;
                assert!(tensor.offset + bytes <= size_of(tensor.buffer, at));
            }
            _ => {}
        }
    }
}

#[test]
fn the_model_loads_and_plans_a_whole_pass() {
    let (w, uploads) = loaded();
    assert!(uploads.iter().all(|c| matches!(c, Command::Upload { .. })));
    let made = sizes(&uploads);
    let runner = GpuHtdemucsRunner::new(kernels(), w, config(), LIMIT);
    let commands = runner.forward_branch_outputs(5, segments()).unwrap();
    check_bindings(&made, &commands);
    let reads: Vec<Vec<usize>> = commands
        .iter()
        .filter_map(|c| match c {
            Command::Readback { tensor } => Some(tensor.shape.clone()),
            _ => None,
        })
        .collect();
    assert_eq!(reads, vec![vec![1, 8, 64, 8], vec![1, 4, 1024]]);
    // Every buffer is let go of at or after the command that made it.
    for (made, last) in last_uses(&commands, 5).iter().enumerate() {
        assert!(*last >= made);
    }
    let inputs: Vec<(HostInput, bool)> = commands
        .iter()
        .filter_map(|c| match c {
            Command::Input { input, dedicated, .. } => Some((*input, *dedicated)),
            _ => None,
        })
        .collect();
    assert_eq!(inputs[0], (HostInput::Spectrogram, false));
    assert_eq!(inputs[1], (HostInput::Waveform, false));
    assert_eq!(inputs[2].0, HostInput::SpectrogramPositions);
    assert_eq!(inputs[3].0, HostInput::WaveformPositions);
    assert_eq!(inputs.len(), 4);
}

#[test]
fn shorter_passes_stop_at_their_seams() {
    let (w, uploads) = loaded();
    let made = sizes(&uploads);
    let runner = GpuHtdemucsRunner::new(kernels(), w, config(), LIMIT);
    let reads = |commands: &[Command]| {
        commands
            .iter()
            .filter_map(|c| match c {
                Command::Readback { tensor } => Some(tensor.shape.clone()),
                _ => None,
            })
            .collect::<Vec<_>>()
    };
    let encoders = runner.forward_encoders(1, segments()).unwrap();
    check_bindings(&made, &encoders);
    assert_eq!(reads(&encoders), vec![vec![1, 384, 4, 8], vec![1, 384, 64]]);
    let inputs = runner.forward_encoder_and_transformer(2, segments()).unwrap();
    check_bindings(&made, &inputs);
    assert_eq!(reads(&inputs), vec![vec![1, 384, 4, 8], vec![1, 384, 64]]);
    let count = |commands: &[Command], kernel: Kernel| {
        commands
            .iter()
            .filter(|c| matches!(c, Command::Dispatch(d) if d.kernel == kernel))
            .count()
    };
    // One softmax per branch and layer of the transformer.
    assert_eq!(count(&encoders, Kernel::Softmax), 0);
    assert_eq!(count(&inputs, Kernel::Softmax), 4);
}

#[test]
fn a_small_device_stops_the_plan_with_its_limit() {
    let (w, _) = loaded();
    let runner = GpuHtdemucsRunner::new(kernels(), w, config(), 1 << 20);
    let error = runner.forward_branch_outputs(5, segments()).unwrap_err();
    assert!(matches!(error, Error::GpuOf(Detail::BufferLimit { limit: 1, .. })), "{error:?}");
}

#[test]
fn weights_that_cannot_be_counted_are_told_apart() {
    assert!(weights().is_loadable(&config()));
    // The transformer has two layers of each branch.
    assert!(!weights().is_loadable(&ModelConfig { t_layers: 3, ..config() }));
    let mut w = weights();
    w.freq_emb.pop();
    assert!(!w.is_loadable(&config()));
    let mut w = weights();
    w.encoder[0].conv.shape[0] = usize::MAX;
    assert!(!w.is_loadable(&config()));
    let mut w = weights();
    w.encoder[0].conv.shape.truncate(2);
    assert!(!w.is_loadable(&config()));
    let mut w = weights();
    w.tdecoder[1].conv_tr.weight.pop();
    assert!(!w.is_loadable(&config()));
    let mut w = weights();
    w.decoder[0].rewrite.shape.pop();
    assert!(!w.is_loadable(&config()));
    // Taps one apart on the first layer of a branch stand two apart on the second.
    let mut w = weights();
    w.encoder[0].dconv.layers[1].conv1.weight.pop();
    assert!(!w.is_loadable(&config()));
    let mut w = weights();
    w.transformer.layers[1].linear1.weight.pop();
    assert!(!w.is_loadable(&config()));
    let mut w = weights();
    w.transformer.channels = usize::MAX / 4;
    assert!(!w.is_loadable(&config()));
}

#[test]
fn segments_that_cannot_be_counted_are_told_apart() {
    let runner = |config| GpuHtdemucsRunner::new(kernels(), loaded().0, config, LIMIT);
    let tests = |config, seg| {
        let r = runner(config);
        (r.encoders_are_plannable(seg), r.inputs_are_plannable(seg), r.is_plannable(seg))
    };
    let seg = segments();
    assert_eq!(tests(config(), seg), (true, true, true));
    let none = (false, false, false);
    assert_eq!(tests(config(), Segments { batch: usize::MAX, ..seg }), none);
    assert_eq!(tests(config(), Segments { frames: usize::MAX / 64, ..seg }), none);
    assert_eq!(tests(config(), Segments { samples: usize::MAX, ..seg }), none);
    assert_eq!(tests(config(), Segments { samples: 0, ..seg }), none);
    // The kernel of eight bins has two of padding on either side.
    assert_eq!(tests(config(), Segments { bins: 3, ..seg }), none);
    // Waveforms of any length are rounded up to fours.
    assert_eq!(tests(config(), Segments { samples: 1023, ..seg }), (true, true, true));
    let headless = ModelConfig { heads: Heads { count: 0, scale: 0 }, ..config() };
    assert_eq!(tests(headless, seg), (true, false, false));
    // The decoders have two layers each.
    assert_eq!(tests(ModelConfig { depth: 3, ..config() }, seg), (true, true, false));
}

fn upload_of(pass: Pass) -> Vec<(u64, Vec<f32>)> {
    pass.finish()
        .unwrap()
        .into_iter()
        .map(|c| match c {
            Command::Upload { bytes, words, .. } => {
                (bytes, words.into_iter().map(f32::from_bits).collect())
            }
            other => panic!("{other:?}"),
        })
        .collect()
}

#[test]
fn convolutions_are_uploaded_padded() {
    let mut pass = Pass::new(0, LIMIT);
    let made = upload_conv(&mut pass, &conv(&[2, 3, 5]), (1, 4), (0, 2), "c");
    assert_eq!((made.in_channels, made.out_channels, made.kernel), (3, 2, (1, 5)));
    assert_eq!(made.weight.shape, vec![128, 16]);
    let uploads = upload_of(pass);
    assert_eq!(uploads[0].1.len(), 128 * 16);
    // Row by row, fifteen taps and a zero.
    assert_eq!(uploads[0].1[14], 0.0);
    assert_eq!(uploads[0].1[13], 6.0);
    assert_eq!(uploads[0].1[15], 0.0);
    assert_eq!(uploads[0].1[16], 1.0);
    assert_eq!(uploads[1].1, vec![0.0, 1.0]);
}

#[test]
fn a_dilated_convolution_becomes_a_plain_one_with_gaps() {
    let mut pass = Pass::new(0, LIMIT);
    let made = upload_widened_conv(&mut pass, &conv(&[1, 2, 3]), 2, "d");
    assert_eq!((made.kernel, made.pad, made.stride), ((1, 5), (0, 2), (1, 1)));
    let uploads = upload_of(pass);
    assert_eq!(&uploads[0].1[..10], &[0.0, 0.0, 1.0, 0.0, 2.0, 3.0, 0.0, 4.0, 0.0, 5.0]);
}

#[test]
fn a_transposed_convolution_is_uploaded_by_output() {
    let mut pass = Pass::new(0, LIMIT);
    let made = upload_conv_tr(&mut pass, &conv_tr(&[2, 3, 2]), (1, 4), "t");
    assert_eq!((made.in_channels, made.out_channels, made.kernel), (2, 3, (1, 2)));
    let uploads = upload_of(pass);
    // Six rows of two inputs: row `o * 2 + k` holds `w[0, o, k]` and `w[1, o, k]`.
    let words = &uploads[0].1;
    for row in 0..6 {
        assert_eq!(words[row * 16], (row % 7) as f32);
        assert_eq!(words[row * 16 + 1], ((row + 6) % 7) as f32);
        assert_eq!(words[row * 16 + 2], 0.0);
    }
}

#[test]
fn queries_keys_and_values_are_fused_in_order() {
    let l = layer(false);
    let fused = fused_qkv(&l);
    assert_eq!(fused.len(), 3 * 512 * 512);
    assert_eq!(fused[..512 * 512], l.q_weight[..]);
    assert_eq!(fused[2 * 512 * 512..], l.v_weight[..]);
}
