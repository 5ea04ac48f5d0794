use demucs_core::error::{Detail, Error};
use demucs_core::gpu::arith::{pad_ceil, row_grid};
use demucs_core::gpu::kernels::{Kernels, Settings};
use demucs_core::gpu::pipelines::Kernel;
use demucs_core::gpu::recorder::{Binding, Command, Recorder};
use demucs_core::gpu::shapes::{
    pack, pad_matrix_for, Activation, AttentionShape, Col2ImShape, GemmJob, GroupNormShape,
    Im2ColShape, LstmJob,
};
use demucs_core::gpu::tensor::{BufferId, DevTensor};

const LIMIT: u64 = 1 << 31;

#[derive(Debug, PartialEq)]
enum Bound {
    Part(usize, u64, u64),
    Words(Vec<u32>, u64),
}

#[derive(Debug, PartialEq)]
struct Seen {
    label: &'static str,
    kernel: Kernel,
    table: Vec<Bound>,
    grid: (u32, u32, u32),
}

fn defaults() -> Settings {
    Settings::read(None, None, None, None, None, None, None, None, None)
}

fn kernels(shuffle: bool) -> Kernels {
    Kernels::new(shuffle, defaults())
}

/// A tensor in a buffer of another plan, named by `index`.
fn t(index: usize, shape: &[usize]) -> DevTensor {
    DevTensor {
        buffer: BufferId { plan: 7, index },
        offset: 0,
        shape: shape.to_vec(),
    }
}

fn seen(rec: Recorder) -> Vec<Seen> {
    rec.into_commands()
        .into_iter()
        .filter_map(|command| match command {
            Command::Dispatch(d) => Some(Seen {
                label: d.label,
                kernel: d.kernel,
                grid: d.grid,
                table: d
                    .table
                    .entries
                    .into_iter()
                    .map(|entry| match entry {
                        Binding::Storage { buffer, offset, size } => {
                            let base = if buffer.plan == 7 { 0 } else { 100 };
                            Bound::Part(base + buffer.index, offset, size)
                        }
                        Binding::Uniform { words, size } => Bound::Words(words, size),
                    })
                    .collect(),
            }),
            _ => None,
        })
        .collect()
}

fn recorder() -> Recorder {
    Recorder::new(1, LIMIT)
}

fn one(rec: Recorder) -> Seen {
    let mut all = seen(rec);
    assert_eq!(all.len(), 1);
    all.remove(0)
}

fn whole(index: usize, elements: u64) -> Bound {
    Bound::Part(index, 0, elements * 4)
}

fn words(values: [u32; 4]) -> Bound {
    Bound::Words(values.to_vec(), 16)
}

#[test]
fn padding_rounds_up_to_tile_multiples() {
    assert_eq!(pad_ceil(384, 16), 384);
    assert_eq!(pad_ceil(385, 16), 400);
    assert_eq!(pad_ceil(1, 128), 128);
}

#[test]
fn padding_zero_fills_the_margins() {
    // 2x3 into a 4x4 tile grid.
    let data: Vec<u32> = (1..=6).map(|v| (v as f32).to_bits()).collect();
    let (padded, rows, cols) = pad_matrix_for(&data, 2, 3, 4, 4).unwrap();
    let padded: Vec<f32> = padded.into_iter().map(f32::from_bits).collect();
    assert_eq!((rows, cols), (4, 4));
    assert_eq!(padded.len(), 16);
    assert_eq!(&padded[0..3], &[1.0, 2.0, 3.0]);
    assert_eq!(padded[3], 0.0, "the margin must be zero, not stale data");
    assert_eq!(&padded[4..7], &[4.0, 5.0, 6.0]);
    assert!(padded[8..].iter().all(|v| *v == 0.0));
}

#[test]
fn padding_rejects_short_input() {
    assert!(pad_matrix_for(&[1.0f32.to_bits(), 2.0f32.to_bits()], 2, 3, 4, 4).is_err());
}

#[test]
fn rows_past_the_grid_spill_into_the_second_axis() {
    assert_eq!(row_grid(0), (1, 1));
    assert_eq!(row_grid(65535), (65535, 1));
    assert_eq!(row_grid(65536), (65535, 2));
    assert_eq!(pack(3, 5), (3 << 16) | 5);
}

#[test]
fn settings_follow_the_environment() {
    let s = defaults();
    assert!(!s.conv2_probe);
    assert_eq!(
        Settings::read(
            Some("0"), Some("0"), Some("0"), Some("128"), Some("0"), Some("5"), Some("0"), Some("0"),
            Some("")
        ),
        Settings {
            conv_direct: false,
            coalesced_b: false,
            transb_plain: false,
            bm64: false,
            bm96: false,
            combine_stats: false,
            combine_work: 5,
            lstm_regs: false,
            moments_segment: 0,
            conv2_probe: true,
        }
    );
}

#[test]
fn products_take_the_tile_that_wastes_least() {
    let k = kernels(false);
    let cases = [
        // m, n, batches, transb -> kernel, label, grid
        (130, 200, 1, false, Kernel::Gemm, "gemm", (2, 2, 1)),
        (10, 10, 1, false, Kernel::Gemm, "gemm", (1, 1, 1)),
        (130, 200, 3, false, Kernel::GemmBatched, "gemm_batched", (2, 2, 3)),
        (130, 64, 3, false, Kernel::GemmBatchedBn64, "gemm_batched_bn64", (2, 1, 3)),
        (64, 64, 3, false, Kernel::GemmBatchedBm64, "gemm_batched_bm64", (1, 1, 3)),
        (130, 64, 1, true, Kernel::GemmTransbBn64, "gemm_transb_bn64", (2, 1, 1)),
        (64, 64, 1, true, Kernel::GemmTransbBm64, "gemm_transb_bm64", (1, 1, 1)),
        (130, 200, 1, true, Kernel::GemmTransbPlain, "gemm_transb", (2, 2, 1)),
        (130, 200, 2, true, Kernel::GemmTransb, "gemm_transb", (2, 2, 2)),
    ];
    for (m, n, batches, transb, kernel, label, grid) in cases {
        let job = GemmJob { transb, ..GemmJob::simple(m, n, 20).batched(batches) };
        let mut rec = recorder();
        k.gemm_into(&mut rec, &t(0, &[1 << 20]), &t(1, &[1 << 20]), &t(2, &[1 << 20]), job)
            .unwrap();
        let d = one(rec);
        assert_eq!((d.kernel, d.label, d.grid), (kernel, label, grid), "{m}x{n}");
    }
    // The setting turns the plain form of a single transposed product off.
    let mut settings = defaults();
    settings.transb_plain = false;
    let job = GemmJob { transb: true, ..GemmJob::simple(130, 200, 20) };
    let mut rec = recorder();
    Kernels::new(false, settings)
        .gemm_into(&mut rec, &t(0, &[1 << 20]), &t(1, &[1 << 20]), &t(2, &[1 << 20]), job)
        .unwrap();
    assert_eq!(one(rec).kernel, Kernel::GemmTransb);
}

#[test]
fn a_product_binds_its_operands_and_dimensions() {
    let mut rec = recorder();
    kernels(false)
        .linear_into(&mut rec, &t(0, &[128, 32]), &t(1, &[32, 128]), &t(2, &[5, 7]), 5, 7, 20)
        .unwrap();
    let d = one(rec);
    assert_eq!(
        d.table,
        vec![
            whole(0, 4096),
            whole(1, 4096),
            whole(2, 35),
            Bound::Words(vec![5, 7, 20, 32, 128, 7, 1, 4096, 0, 4096, 0, 35, 0, 0], 64),
        ]
    );
}

#[test]
fn a_product_is_refused_where_an_operand_is_short() {
    let k = kernels(false);
    let job = GemmJob::simple(5, 7, 20);
    let big = t(0, &[1 << 20]);
    let mut run = |a: &DevTensor, b: &DevTensor, c: &DevTensor, job: GemmJob| {
        let mut rec = recorder();
        let r = k.gemm_into(&mut rec, a, b, c, job);
        if r.is_err() {
            assert!(seen(rec).is_empty());
        }
        r
    };
    // Four whole rows of A and twenty elements of the fifth.
    assert!(run(&t(1, &[4 * 32 + 20]), &big, &big, job).is_ok());
    let short = run(&t(1, &[4 * 32 + 19]), &big, &big, job).unwrap_err();
    assert_eq!(
        short.message(),
        "GEMM operand A holds 147 elements, the job indexes up to 148"
    );
    let short = run(&big, &t(1, &[19 * 128 + 6]), &big, job).unwrap_err();
    assert_eq!(
        short.message(),
        "GEMM operand B holds 2438 elements, the job indexes up to 2439"
    );
    let short = run(&big, &big, &t(1, &[34]), job).unwrap_err();
    assert_eq!(
        short.message(),
        "GEMM operand C holds 34 elements, the job indexes up to 35"
    );
    let many = run(&big, &big, &big, job.batched(65536)).unwrap_err();
    assert_eq!(many.message(), "65536 batches overflows the z grid dimension");
    let none = run(&big, &big, &big, GemmJob { inner_count: 0, ..job }).unwrap_err();
    assert_eq!(none.message(), "inner_count must be at least 1");
    // An empty product is no dispatch.
    assert!(run(&t(1, &[0]), &big, &big, GemmJob { k: 0, ..job }).is_ok());
}

#[test]
fn epilogues_pick_their_kernel_and_bind_the_bias() {
    let k = kernels(false);
    let (a, b, c, bias) = (t(0, &[4096]), t(1, &[4096]), t(2, &[35]), t(3, &[7]));
    let job = GemmJob::simple(5, 7, 20);
    let run = |transb: bool, with: bool, gelu: bool, residual: bool| {
        let mut rec = recorder();
        let bias = if with { Some(&bias) } else { None };
        let job = GemmJob { transb, ..job };
        k.gemm_into_epilogue(&mut rec, &a, &b, &c, job, bias, gelu, residual).map(|_| one(rec))
    };
    for (transb, with, gelu, residual, kernel) in [
        (true, true, false, false, Kernel::GemmTransbPlainBias),
        (false, true, true, false, Kernel::GemmGeluBias),
        (false, true, false, false, Kernel::GemmBias),
        (false, false, false, true, Kernel::GemmResidual),
        (false, true, false, true, Kernel::GemmBiasResidual),
        (false, true, true, true, Kernel::GemmGeluBiasResidual),
        (false, false, true, true, Kernel::GemmGeluResidual),
    ] {
        let d = run(transb, with, gelu, residual).unwrap();
        assert_eq!((d.kernel, d.label), (kernel, "gemm_bias"));
        let mut table = vec![
            whole(0, 4096),
            whole(1, 4096),
            whole(2, 35),
            Bound::Words(vec![5, 7, 20, 32, 128, 7, 1, 0, 0, 0, 0, 0, 0, 0], 64),
        ];
        if with {
            table.push(whole(3, 7));
        }
        assert_eq!(d.table, table);
    }
    // The activation of the biased product, then what the destination holds.
    let both = Kernel::GemmGeluBiasResidual.pipeline().source;
    assert!(both.contains(
        "C[cbase + gm0 * gd.ldc + gn0] = gelu_erp(c0_0 + cb0) + C[cbase + gm0 * gd.ldc + gn0];"
    ));
    let plain = Kernel::GemmGeluResidual.pipeline().source;
    assert!(plain.contains("gelu_erp(c0_0) + C[cbase + gm0 * gd.ldc + gn0];"));
    assert!(plain.contains("fn gelu_erp") && !plain.contains("Bias"));
    assert_eq!(
        run(true, true, true, false).unwrap_err().message(),
        "the transb epilogue is bias-only, single-batch"
    );
    assert_eq!(
        run(false, false, true, false).unwrap_err().message(),
        "the plain epilogue is `gemm_into`"
    );
    let mut rec = recorder();
    let many = k.gemm_into_epilogue(&mut rec, &a, &b, &c, job.batched(2), Some(&bias), false, false);
    assert_eq!(
        many.unwrap_err().message(),
        "the bias/GELU epilogue is compiled for single-batch GEMMs only"
    );
}

#[test]
fn rms_norm_shuffles_where_a_row_fits() {
    for (shuffle, dim, kernel, grid) in [
        (false, 384, Kernel::RmsNorm, (20, 1, 1)),
        (true, 384, Kernel::RmsNormWarp, (3, 1, 1)),
        (true, 385, Kernel::RmsNorm, (20, 1, 1)),
    ] {
        let mut rec = recorder();
        kernels(shuffle).rms_norm_pitched(
            &mut rec, &t(0, &[9000]), &t(1, &[dim]), &t(2, &[8000]), 20, dim, 400, 390,
        );
        let d = one(rec);
        assert_eq!((d.kernel, d.label, d.grid), (kernel, "rms_norm", grid));
        assert_eq!(
            d.table,
            vec![
                whole(0, 9000),
                whole(1, dim as u64),
                whole(2, 8000),
                words([20, dim as u32, 400, 390]),
            ]
        );
    }
}

#[test]
fn elementwise_kernels_bind_what_they_touch() {
    let k = kernels(false);
    let mut rec = recorder();
    k.gelu_into(&mut rec, &t(0, &[3, 100]), &t(1, &[400]));
    k.tanh_into(&mut rec, &t(0, &[3, 100]), &t(1, &[400]));
    k.gelu_in_place(&mut rec, &t(0, &[300]));
    k.tanh_bias_in_place(&mut rec, &t(0, &[300]), &t(1, &[3]), 10, 20);
    k.copy(&mut rec, &t(0, &[300]), &t(1, &[300]), 257);
    k.glu_into(&mut rec, &t(0, &[6, 20]), &t(1, &[100]), 6, 10);
    k.sigmoid_gate_into(&mut rec, &t(0, &[300]), &t(1, &[30]), &t(2, &[300]), 6, 5);
    k.mul_in_place(&mut rec, &t(0, &[300]), &t(1, &[300]), 299).unwrap();
    k.fill_zero_into(&mut rec, &t(0, &[300]), 256).unwrap();
    k.rope_heads(&mut rec, &t(0, &[720]), &t(1, &[99]), 2, 5, 3, 8, 1, 2);
    let all = seen(rec);
    let expected = vec![
        ("gelu", Kernel::Gelu, vec![whole(0, 300), whole(1, 300), words([300, 0, 0, 0])], 2),
        ("tanh", Kernel::Tanh, vec![whole(0, 300), whole(1, 300), words([300, 0, 0, 0])], 2),
        ("gelu_in_place", Kernel::GeluInPlace, vec![whole(0, 300), words([300, 0, 0, 0])], 2),
        (
            "tanh_bias",
            Kernel::TanhBiasInPlace,
            vec![whole(0, 300), whole(1, 3), words([300, 10, 20, 0])],
            2,
        ),
        ("copy", Kernel::Copy, vec![whole(0, 257), whole(1, 257), words([257, 0, 0, 0])], 2),
        ("glu", Kernel::Glu, vec![whole(0, 120), whole(1, 60), words([6, 10, 0, 0])], 1),
        (
            "sigmoid_gate",
            Kernel::SigmoidGate,
            vec![whole(0, 300), whole(1, 30), whole(2, 300), words([300, 6, 5, 0])],
            2,
        ),
        (
            "mul_in_place",
            Kernel::MulInPlace,
            vec![whole(0, 299), whole(1, 299), words([299, 0, 0, 0])],
            2,
        ),
        ("fill_zero", Kernel::FillZero, vec![whole(0, 300), words([256, 0, 0, 0])], 1),
        (
            "rope",
            Kernel::Rope,
            vec![whole(0, 720), whole(1, 99), words([5, 72, 8, 1]), words([10, 2, 0, 0])],
            1,
        ),
    ];
    for (d, (label, kernel, table, gx)) in all.iter().zip(expected) {
        assert_eq!(
            *d,
            Seen { label, kernel, table, grid: (gx, 1, 1) }
        );
    }
    assert_eq!(all.len(), 10);
}

#[test]
fn allocating_forms_make_their_output_first() {
    let mut rec = recorder();
    let out = kernels(false).gelu(&mut rec, &t(0, &[3, 100])).unwrap();
    assert_eq!(out.shape, vec![3, 100]);
    let commands = rec.into_commands();
    assert_eq!(commands.len(), 2);
    match &commands[0] {
        Command::Alloc { bytes, label } => assert_eq!((*bytes, label.as_str()), (1280, "gelu.out")),
        other => panic!("{other:?}"),
    }
    let mut rec = Recorder::new(1, 1023);
    assert_eq!(
        kernels(false).softmax(&mut rec, &t(0, &[256]), 16, 16).unwrap_err(),
        Error::GpuOf(Detail::BufferLimit { label: "softmax.out".into(), wanted: 0, limit: 0 })
    );
}

#[test]
fn gated_affines_bind_the_base_last() {
    let k = kernels(false);
    let mut rec = recorder();
    let (x, scale, shift, out) = (t(0, &[4, 12]), t(1, &[3]), t(2, &[3]), t(3, &[24]));
    k.glu_channel_affine_into(&mut rec, &x, &scale, &shift, &out, 4, 6, 3, 2);
    k.glu_channel_affine_add_into(&mut rec, &t(4, &[24]), &x, &scale, &shift, &out, 4, 6, 3, 2);
    let all = seen(rec);
    let table = || vec![whole(0, 48), whole(3, 24), whole(1, 3), whole(2, 3), words([4, 6, 3, 2])];
    assert_eq!(all[0].table, table());
    assert_eq!(all[0].kernel, Kernel::GluChannelAffine);
    let mut with_base = table();
    with_base.push(whole(4, 24));
    assert_eq!(all[1].table, with_base);
    assert_eq!(all[1].kernel, Kernel::GluChannelAffineAdd);
}

#[test]
fn additions_broadcast_what_divides() {
    let k = kernels(false);
    for (count, source, kernel, broadcast, gx) in [
        (2048, 2048, Kernel::AddInPlaceVec4, 0, 2),
        (2048, 16, Kernel::AddInPlaceVec4, 16, 2),
        (2049, 3, Kernel::AddInPlace, 3, 9),
    ] {
        let mut rec = recorder();
        k.add_in_place(&mut rec, &t(0, &[count]), &t(1, &[source])).unwrap();
        let d = one(rec);
        assert_eq!((d.kernel, d.grid), (kernel, (gx, 1, 1)));
        assert_eq!(
            d.table,
            vec![
                whole(0, count as u64),
                whole(1, source as u64),
                words([count as u32, broadcast, 0, 0]),
            ]
        );
    }
    let mut rec = recorder();
    assert_eq!(
        k.add_in_place(&mut rec, &t(0, &[10]), &t(1, &[3])).unwrap_err().message(),
        "cannot add 3 elements into 10: the source must match or divide it"
    );
    assert_eq!(
        k.mul_in_place(&mut rec, &t(0, &[10]), &t(1, &[3]), 4).unwrap_err().message(),
        "mul_in_place covers 4 elements, the tensors hold 10 and 3"
    );
    assert_eq!(
        k.fill_zero_into(&mut rec, &t(0, &[10]), 11).unwrap_err().message(),
        "fill_zero covers 11 elements, the tensor holds 10"
    );
    assert!(seen(rec).is_empty());
}

#[test]
fn channel_affines_check_and_bind() {
    let k = kernels(false);
    let (x, scale, shift) = (t(0, &[2, 3, 50]), t(1, &[3]), t(2, &[3]));
    let mut rec = recorder();
    k.channel_affine_act_in_place(&mut rec, &x, &scale, &shift, 2, 3, 50, Activation::Gelu).unwrap();
    k.channel_affine_act_add_into(
        &mut rec, &t(3, &[300]), &x, &scale, &shift, &t(4, &[300]), 2, 3, 50, Activation::Silu,
    )
    .unwrap();
    let all = seen(rec);
    assert_eq!(
        all[0].table,
        vec![whole(0, 300), whole(1, 3), whole(2, 3), words([3, 50, 2, 300])]
    );
    assert_eq!(
        all[1].table,
        vec![
            whole(0, 300), whole(1, 3), whole(2, 3), words([3, 50, 3, 300]), whole(3, 300),
            whole(4, 300),
        ]
    );
    assert_eq!(all[1].grid, (2, 1, 1));
    let mut rec = recorder();
    let fault = |r: Result<(), Error>| r.unwrap_err().message();
    assert_eq!(
        fault(k.channel_affine_act_in_place(&mut rec, &x, &scale, &shift, 2, 4, 10, Activation::Relu)),
        "an affine of 4 channels was given 3 scales and 3 shifts"
    );
    assert_eq!(
        fault(k.channel_affine_act_in_place(
            &mut rec, &x, &scale, &shift, 2, 3, 0, Activation::Identity
        )),
        "affine needs a non-zero plane"
    );
    assert_eq!(
        fault(k.channel_affine_act_in_place(
            &mut rec, &x, &scale, &shift, 2, 3, 51, Activation::Identity
        )),
        "affine covers 306 elements, the tensor holds 300"
    );
    assert_eq!(
        fault(k.channel_affine_act_add_into(
            &mut rec, &t(3, &[299]), &x, &scale, &shift, &t(4, &[1]), 2, 3, 50, Activation::Relu
        )),
        "affine covers 300 elements, `base` holds 299"
    );
    assert_eq!(
        fault(k.add_row_bias_in_place(&mut rec, &x, &scale, 6, 50, 0)),
        "a row bias repeats every 0 rows"
    );
    assert_eq!(
        fault(k.add_row_bias_in_place(&mut rec, &x, &scale, 6, 50, 4)),
        "a row bias of 4 values was given 3"
    );
    assert_eq!(
        fault(k.add_row_bias_in_place(&mut rec, &x, &scale, 6, 51, 3)),
        "add_row_bias needs 306 elements, the tensor holds 300"
    );
    assert_eq!(
        fault(k.batch_affine_in_place(&mut rec, &x, &scale, &shift, 7)),
        "batch affine: 300 elements are not a multiple of plane 7"
    );
    assert_eq!(
        fault(k.batch_affine_in_place(&mut rec, &x, &scale, &shift, 50)),
        "batch affine: scale/shift need 6 values"
    );
}

fn norm() -> GroupNormShape {
    GroupNormShape {
        rows: 2,
        groups: 1,
        per_group: 8,
        len: 500,
        row_stride: 4000,
        len_stride: 1,
        channel_stride: 500,
        eps: 1e-5f32.to_bits(),
    }
}

#[test]
fn group_norm_splits_long_groups() {
    let k = kernels(false);
    let (gamma, beta) = (t(1, &[8]), t(2, &[8]));
    // One segment: one dispatch.
    let mut rec = recorder();
    k.group_norm_into(&mut rec, &t(0, &[8000]), &gamma, &beta, &t(3, &[8000]), norm()).unwrap();
    let d = one(rec);
    assert_eq!((d.kernel, d.grid), (Kernel::GroupNorm, (2, 1, 1)));
    let eps = 1e-5f32.to_bits();
    assert_eq!(
        d.table,
        vec![
            whole(0, 8000), whole(1, 8), whole(2, 8), whole(3, 8000), words([1, 8, 500, 4000]),
            words([2, 1, 500, eps]),
        ]
    );
    // Three segments: partial sums, then what applies them.
    let long = GroupNormShape { len: 1100, row_stride: 8800, channel_stride: 1100, ..norm() };
    let mut rec = recorder();
    k.group_norm_into(&mut rec, &t(0, &[17600]), &gamma, &beta, &t(3, &[17600]), long).unwrap();
    let all = seen(rec);
    assert_eq!(all[0].kernel, Kernel::GroupNormPartial);
    assert_eq!(all[0].grid, (6, 1, 1));
    assert_eq!(
        all[0].table,
        vec![
            whole(0, 17600), words([1, 8, 1100, 8800]), words([2, 1, 1100, eps]),
            words([3, 2934, 0, 0]), Bound::Part(100, 0, 48),
        ]
    );
    assert_eq!(all[1].kernel, Kernel::GroupNormApplyFromPartials);
    assert_eq!(all[1].label, "group_norm_apply");
    assert_eq!(all[1].table[7], Bound::Part(100, 0, 48));
    assert_eq!(all.len(), 2);
    // Where much work repeats, the statistics are combined first.
    let mut settings = defaults();
    settings.combine_work = 1;
    let mut rec = recorder();
    Kernels::new(false, settings)
        .group_norm_into(&mut rec, &t(0, &[17600]), &gamma, &beta, &t(3, &[17600]), long)
        .unwrap();
    let all = seen(rec);
    let order: Vec<Kernel> = all.iter().map(|d| d.kernel).collect();
    assert_eq!(
        order,
        vec![Kernel::GroupNormPartial, Kernel::GroupNormCombine, Kernel::GroupNormApply]
    );
    assert_eq!(all[1].grid, (1, 1, 1));
    assert_eq!(all[1].table[1], Bound::Part(102, 0, 16));
    assert_eq!(all[2].table[7], Bound::Part(102, 0, 16));
}

#[test]
fn group_norm_is_refused_where_it_reads_too_far() {
    let k = kernels(false);
    let run = |x: usize, gammas: usize, shape: GroupNormShape| {
        let mut rec = recorder();
        k.group_norm_into(
            &mut rec, &t(0, &[x]), &t(1, &[gammas]), &t(2, &[8]), &t(3, &[8000]), shape,
        )
        .unwrap_err()
        .message()
    };
    assert_eq!(
        run(8000, 8, GroupNormShape { len: 0, ..norm() }),
        "group_norm needs non-zero rows, groups, per_group and len"
    );
    assert_eq!(run(8000, 7, norm()), "group_norm has 8 channels but 7 gammas and 8 betas");
    assert_eq!(
        run(7999, 8, norm()),
        "group_norm covers 8000 elements, the tensors hold 7999 and 8000"
    );
    assert_eq!(norm().needed(), 8000);
    assert_eq!(norm().channels(), 8);
}

#[test]
fn moments_split_long_planes() {
    let mut settings = defaults();
    settings.moments_segment = 1000;
    let k = Kernels::new(false, settings);
    let mut rec = recorder();
    k.batch_moments_into(&mut rec, &t(0, &[3, 2500]), &t(1, &[3]), &t(2, &[3]), 2500).unwrap();
    let all = seen(rec);
    assert_eq!(all[0].kernel, Kernel::BatchMomentsPartial);
    assert_eq!(all[0].grid, (9, 1, 1));
    assert_eq!(
        all[0].table,
        vec![whole(0, 7500), Bound::Part(100, 0, 72), words([2500, 3, 834, 3])]
    );
    assert_eq!(
        all[1].table,
        vec![Bound::Part(100, 0, 72), whole(1, 3), whole(2, 3), words([2500, 3, 3, 0])]
    );
    settings.moments_segment = 0;
    let mut rec = recorder();
    Kernels::new(false, settings)
        .batch_moments_into(&mut rec, &t(0, &[3, 2500]), &t(1, &[3]), &t(2, &[3]), 2500)
        .unwrap();
    let d = one(rec);
    assert_eq!((d.kernel, d.grid), (Kernel::BatchMoments, (3, 1, 1)));
    let mut rec = recorder();
    assert_eq!(
        k.batch_moments_into(&mut rec, &t(0, &[10]), &t(1, &[3]), &t(2, &[3]), 3)
            .unwrap_err()
            .message(),
        "batch moments: 10 is not a multiple of plane 3"
    );
    assert_eq!(
        k.batch_normalize_in_place(&mut rec, &t(0, &[10]), &t(1, &[3]), &t(2, &[3]), 0)
            .unwrap_err()
            .message(),
        "batch normalize: 10 is not a multiple of plane 0"
    );
}

fn lstm(hidden: usize) -> LstmJob {
    LstmJob {
        rows: 5,
        time: 3,
        hidden,
        reverse: true,
        proj_pitch: 4 * hidden,
        out_pitch: 2 * hidden,
        out_offset: hidden,
    }
}

#[test]
fn recurrences_keep_small_states_in_registers() {
    let k = kernels(false);
    for (hidden, kernel, label, gx) in [
        (8, Kernel::LstmRecurRegs { hidden: 8 }, "lstm_recur_regs", 3),
        (96, Kernel::LstmRecurRegs { hidden: 96 }, "lstm_recur_regs", 3),
        (98, Kernel::LstmRecur, "lstm_recur", 2),
        (7, Kernel::LstmRecur, "lstm_recur", 2),
        (2, Kernel::LstmRecur, "lstm_recur", 2),
    ] {
        let big = t(0, &[1 << 20]);
        let mut rec = recorder();
        k.lstm_recur_into(&mut rec, &big, &t(1, &[1 << 20]), &t(2, &[999]), &t(3, &[9999]), lstm(hidden))
            .unwrap();
        let d = one(rec);
        assert_eq!((d.kernel, d.label, d.grid), (kernel, label, (gx, 1, 1)));
        let h = hidden as u32;
        assert_eq!(d.table[4], words([h, 3, 1, 2 * h]));
        assert_eq!(d.table[5], words([h, 5, gx, 4 * h]));
    }
}

#[test]
fn recurrences_are_checked() {
    let k = kernels(false);
    let run = |proj: usize, w: usize, out: usize, job: LstmJob| {
        let mut rec = recorder();
        k.lstm_recur_into(&mut rec, &t(0, &[proj]), &t(1, &[w]), &t(2, &[32]), &t(3, &[out]), job)
            .map_err(|e| e.message())
    };
    assert!(run(480, 256, 240, lstm(8)).is_ok());
    assert_eq!(
        run(479, 256, 240, lstm(8)).unwrap_err(),
        "lstm_recur reads 480 projected elements, the tensor holds 479"
    );
    assert_eq!(
        run(480, 255, 240, lstm(8)).unwrap_err(),
        "lstm_recur needs a (32, 8) weight and a 32-element bias, the tensors hold 255 and 32"
    );
    assert_eq!(
        run(480, 256, 239, lstm(8)).unwrap_err(),
        "lstm_recur writes 240 elements, the target holds 239"
    );
    assert_eq!(
        run(480, 256, 240, LstmJob { time: 0, ..lstm(8) }).unwrap_err(),
        "lstm_recur needs non-zero dimensions"
    );
    assert_eq!(
        run(480, 256, 240, lstm(129)).unwrap_err(),
        "lstm_recur is compiled for hidden <= 128, this layer has 129"
    );
    assert_eq!(
        run(1 << 24, 256, 1 << 24, LstmJob { out_pitch: 65536, ..lstm(8) }).unwrap_err(),
        "lstm_recur parameter out_pitch=65536 does not fit the kernel's 16-bit packing"
    );
}

fn window() -> Im2ColShape {
    Im2ColShape {
        batch: 2,
        in_channels: 3,
        h: 10,
        w: 20,
        kernel: (3, 5),
        stride: (1, 2),
        pad: (1, 2),
    }
}

#[test]
fn convolution_geometry() {
    let s = window();
    assert_eq!(s.out_hw(), (10, 10));
    assert_eq!(s.k(), 45);
    assert_eq!(s.positions(), 100);
    assert_eq!(s.output_len(), 2 * 45 * 100);
    assert_eq!(s.pitched_len(128), 2 * 45 * 128);
    assert_eq!(s.pitched_len_with(128, 48), 2 * 48 * 128);
    let up = Col2ImShape {
        batch: 2,
        in_channels: 20,
        out_channels: 3,
        in_h: 4,
        in_w: 5,
        kernel: (8, 1),
        stride: (4, 1),
    };
    assert_eq!(up.out_hw(), (20, 5));
    assert_eq!((up.m(), up.positions_in(), up.positions_out()), (24, 20, 100));
}

#[test]
fn a_convolution_gathers_then_multiplies() {
    let (x, w, bias) = (t(0, &[2, 3, 10, 20]), t(1, &[128 * 48]), t(2, &[40]));
    let (patches, out) = (t(3, &[2 * 48 * 128]), t(4, &[2 * 40 * 100]));
    let mut rec = recorder();
    kernels(false)
        .conv2d_into(&mut rec, &x, &w, Some(&bias), &patches, &out, window(), 40)
        .unwrap();
    let all = seen(rec);
    assert_eq!(all.len(), 3);
    assert_eq!(
        all[0],
        Seen {
            label: "im2col",
            kernel: Kernel::Im2col,
            grid: (1, 96, 10),
            table: vec![
                whole(0, 1200), whole(3, 12288), words([3, 3, 5, 10]), words([20, 10, 10, 2]),
                words([1, 2, 1, 2]), words([128, 48, 256, 0]),
            ],
        }
    );
    let dims = vec![40, 100, 45, 48, 128, 100, 1, 0, 0, 48 * 128, 0, 4000, 0, 0];
    assert_eq!((all[1].label, all[1].grid), ("gemm_bm64", (1, 1, 2)));
    assert_eq!(
        all[1].table,
        vec![whole(1, 6144), whole(3, 12288), whole(4, 8000), Bound::Words(dims, 64)]
    );
    assert_eq!(
        all[2].table,
        vec![whole(4, 8000), whole(2, 40), words([80, 100, 40, 0])]
    );
}

#[test]
fn convolutions_pick_the_tile_of_their_channels() {
    let run = |settings: Settings, out_channels: usize, shape: Im2ColShape| {
        let mut rec = recorder();
        Kernels::new(false, settings)
            .conv2d_gemm_into(
                &mut rec, &t(1, &[1 << 16]), &t(0, &[1 << 20]), &t(3, &[1 << 20]), &t(4, &[1 << 22]),
                shape, out_channels, None,
            )
            .unwrap();
        one(rec)
    };
    let base = Settings::read(
        Some("0"), Some("0"), None, None, None, None, None, None, None,
    );
    let with = |bm64: bool, bm96: bool, coalesced_b: bool, conv_direct: bool| Settings {
        bm64, bm96, coalesced_b, conv_direct, ..base
    };
    let kernel = |s: Settings, c: usize| run(s, c, window()).kernel;
    assert_eq!(kernel(with(true, true, false, false), 64), Kernel::GemmBatchedBm64Bn128);
    assert_eq!(kernel(with(true, true, true, false), 64), Kernel::GemmBatchedBm64Bn128Coalesced);
    assert_eq!(kernel(with(true, true, true, false), 65), Kernel::GemmBatchedBm96Bn128);
    assert_eq!(kernel(with(true, true, true, false), 193), Kernel::GemmBatched);
    assert_eq!(kernel(with(false, false, true, false), 64), Kernel::GemmBatched);
    // A width of whole tiles needs no patches.
    let wide = Im2ColShape { w: 256, stride: (1, 2), ..window() };
    let d = run(with(true, true, true, true), 40, wide);
    assert_eq!((d.kernel, d.grid), (Kernel::GemmConvDirectBatched, (1, 10, 2)));
    assert_eq!(d.table[1], whole(0, 1 << 20));
    assert_eq!(d.table[4], words([128, 10, 256, 10]));
    assert_eq!(d.table[5], words([pack(2, 1), pack(2, 1), pack(3, 5), 3]));
    let d = run(with(true, true, true, true), 40, Im2ColShape { batch: 1, ..wide });
    assert_eq!(d.kernel, Kernel::GemmConvDirect);
    assert_eq!(d.table[1], whole(0, 3 * 10 * 256));
    assert_eq!(d.table[2], whole(4, 40 * 1280));
}

#[test]
fn a_transposed_convolution_goes_batch_by_batch() {
    let shape = Col2ImShape {
        batch: 2,
        in_channels: 20,
        out_channels: 8,
        in_h: 4,
        in_w: 5,
        kernel: (8, 1),
        stride: (4, 1),
    };
    let (x, w, bias) = (t(0, &[800]), t(1, &[128 * 32]), t(2, &[8]));
    let (padded, taps, out) = (t(3, &[2 * 32 * 128]), t(4, &[2 * 128 * 128]), t(5, &[1600]));
    let mut rec = recorder();
    kernels(false)
        .conv_transpose2d_into(&mut rec, &x, &w, Some(&bias), &padded, &taps, &out, shape)
        .unwrap();
    let all = seen(rec);
    let labels: Vec<&str> = all.iter().map(|d| d.label).collect();
    assert_eq!(
        labels,
        vec![
            "copy_pitched", "gemm", "col2im", "add_row_bias_in_place", "gemm", "col2im",
            "add_row_bias_in_place"
        ]
    );
    assert_eq!(
        all[0].table,
        vec![whole(0, 800), whole(3, 8192), words([2, 20, 20, 20]), words([32, 128, 0, 0])]
    );
    assert_eq!(all[4].table[1], Bound::Part(3, 32 * 128 * 4, 32 * 128 * 4));
    assert_eq!(all[4].table[2], Bound::Part(4, 128 * 128 * 4, 128 * 128 * 4));
    assert_eq!(
        all[4].table[3],
        Bound::Words(vec![64, 20, 20, 32, 128, 128, 1, 0, 0, 0, 0, 0, 0, 0], 64)
    );
    assert_eq!(
        all[5].table,
        vec![
            Bound::Part(4, 65536, 65536), Bound::Part(5, 3200, 3200), words([8, 8, 1, 20]),
            words([5, 4, 1, 4]), words([5, 1, 128, 128]),
        ]
    );
    assert_eq!(all[6].table[2], words([8, 100, 8, 0]));
}

#[test]
fn layout_kernels_check_and_bind() {
    let k = kernels(false);
    let mut rec = recorder();
    k.transpose(&mut rec, &t(0, &[2, 3, 4, 5]), &t(1, &[120]), 2, 3, 4, 5).unwrap();
    k.crop_rows_into(&mut rec, &t(0, &[2, 100]), &t(1, &[60]), 2, 100, 3, 10, 2).unwrap();
    k.heads_permute_into(&mut rec, &t(0, &[120]), &t(1, &[120]), 1, 2, 3, 4, 5, true).unwrap();
    let all = seen(rec);
    assert_eq!(all[0].table, vec![whole(0, 120), whole(1, 120), words([2, 3, 4, 5])]);
    assert_eq!(
        all[1].table,
        vec![whole(0, 200), whole(1, 60), words([100, 3, 10, 2]), words([2, 0, 0, 0])]
    );
    assert_eq!(
        all[2].table,
        vec![whole(0, 120), whole(1, 120), words([1, 2, 3, 4]), words([5, 120, 1, 0])]
    );
    let mut rec = recorder();
    let (a, b) = (t(0, &[10]), t(1, &[10]));
    let fault = |r: Result<(), Error>| r.unwrap_err().message();
    assert_eq!(
        fault(k.transpose(&mut rec, &a, &b, 1, 2, 3, 2)),
        "transpose 1x2x3x2 needs 12 elements on both sides"
    );
    assert_eq!(
        fault(k.copy_pitched_into(&mut rec, &a, &b, 1, 3, 2, 2, 2, 2)),
        "copy_pitched has 3 rows per batch but the destination holds 2"
    );
    assert_eq!(
        fault(k.copy_pitched_into(&mut rec, &a, &b, 2, 3, 2, 2, 2, 3)),
        "copy_pitched reads 12 input elements, the tensor holds 10"
    );
    assert_eq!(
        fault(k.crop_rows_into(&mut rec, &a, &b, 1, 10, 6, 2, 0)),
        "crop_rows writes 12 elements, the target holds 10"
    );
    assert_eq!(
        fault(k.crop_rows_into(&mut rec, &a, &b, 1, 11, 5, 2, 0)),
        "crop_rows reads 11 elements per the given strides, the tensor holds 10"
    );
    assert_eq!(
        fault(k.heads_permute_into(&mut rec, &a, &b, 1, 0, 1, 1, 1, false)),
        "heads_permute needs non-zero batches, heads, per_head, t and f"
    );
    assert_eq!(
        fault(k.heads_permute_into(&mut rec, &a, &b, 1, 2, 3, 1, 2, false)),
        "heads_permute moves 12 elements, the tensors hold 10 and 10"
    );
}

#[test]
fn softmax_picks_the_kernel_its_rows_fit() {
    let scale = 0.125f32.to_bits();
    for (shuffle, cols, pitch, kernel, gx) in [
        (false, 60, 64, Kernel::SoftmaxInPlace, 20),
        (true, 60, 64, Kernel::SoftmaxWarp, 3),
        (true, 60, 80, Kernel::SoftmaxInPlace, 20),
        (true, 832, 832, Kernel::SoftmaxInPlace, 20),
    ] {
        let mut rec = recorder();
        kernels(shuffle)
            .softmax_in_place(&mut rec, &t(0, &[20, 832]), 20, cols, pitch, scale)
            .unwrap();
        let d = one(rec);
        assert_eq!((d.kernel, d.grid), (kernel, (gx, 1, 1)));
        assert_eq!(d.table[1], words([20, cols as u32, scale, pitch as u32]));
    }
    let k = kernels(false);
    let mut rec = recorder();
    assert_eq!(
        k.softmax_in_place(&mut rec, &t(0, &[99]), 1, 3, 2, scale).unwrap_err().message(),
        "softmax pitch 2 is narrower than its 3 columns"
    );
    assert_eq!(
        k.softmax_in_place(&mut rec, &t(0, &[999]), 1, 833, 833, scale).unwrap_err().message(),
        "softmax rows of 833 columns exceed the kernel's register cache \
         (832 = 13 slots x 64 lanes); widen SOFTMAX_SLOTS"
    );
    assert_eq!(
        k.softmax_stats(&mut rec, &t(0, &[99]), &t(1, &[99]), 3, 3, scale).unwrap_err().message(),
        "softmax stats needs the 32-lane subgroup reduction"
    );
    assert_eq!(
        kernels(true)
            .softmax_stats(&mut rec, &t(0, &[99]), &t(1, &[5]), 3, 3, scale)
            .unwrap_err()
            .message(),
        "softmax stats writes 6 values for 3 rows, the tensor holds 5"
    );
    k.softmax_scaled(&mut rec, &t(0, &[99]), &t(1, &[99]), 9, 11, scale);
    kernels(true).softmax_scaled(&mut rec, &t(0, &[99]), &t(1, &[99]), 9, 11, scale);
    let all = seen(rec);
    assert_eq!((all[0].kernel, all[0].grid), (Kernel::Softmax, (9, 1, 1)));
    assert_eq!((all[1].kernel, all[1].grid), (Kernel::SoftmaxScaledWarp, (2, 1, 1)));
    assert_eq!(all[1].table, vec![whole(0, 99), whole(1, 99), words([9, 11, scale, 0])]);
}

#[test]
fn attention_is_two_products_around_a_softmax() {
    let shape = AttentionShape { bands: 2, frames: 30, heads: 4, dim_head: 8 };
    assert_eq!((shape.inner(), shape.row()), (32, 96));
    assert_eq!((shape.scores_pitch(), shape.scores_len()), (32, 2 * 4 * 30 * 32));
    assert_eq!(shape.output_len(), 2 * 30 * 32);
    let k = kernels(false);
    let scale = 0.5f32.to_bits();
    let (qkv, scores, out) = (t(0, &[2 * 30 * 96]), t(1, &[7680]), t(2, &[1920]));
    let mut rec = recorder();
    k.attention(&mut rec, &qkv, &scores, &out, shape, scale).unwrap();
    let all = seen(rec);
    assert_eq!(all.len(), 3);
    assert_eq!((all[0].kernel, all[0].grid), (Kernel::GemmTransbBm64, (1, 1, 8)));
    assert_eq!(
        all[0].table,
        vec![
            whole(0, 5760),
            Bound::Part(0, 128, 5728 * 4),
            whole(1, 7680),
            Bound::Words(vec![30, 30, 8, 96, 96, 32, 4, 2880, 8, 2880, 8, 3840, 960, 0], 64),
        ]
    );
    assert_eq!(all[1].table, vec![whole(1, 7680), words([240, 30, scale, 32])]);
    assert_eq!(all[2].kernel, Kernel::GemmBatchedBm64);
    assert_eq!(
        all[2].table,
        vec![
            whole(1, 7680),
            Bound::Part(0, 256, 5696 * 4),
            whole(2, 1920),
            Bound::Words(vec![30, 8, 30, 32, 96, 32, 4, 3840, 960, 2880, 8, 960, 8, 0], 64),
        ]
    );
    let mut rec = recorder();
    assert_eq!(
        k.attention(&mut rec, &qkv, &t(1, &[7679]), &out, shape, scale).unwrap_err().message(),
        "score scratch holds 7679 elements, needs 7680"
    );
    assert_eq!(
        k.attention(&mut rec, &qkv, &scores, &t(2, &[1919]), shape, scale).unwrap_err().message(),
        "attention output holds 1919 elements, needs 1920"
    );
}

#[test]
fn fused_attention_walks_blocks_of_its_tile() {
    let k = kernels(false);
    let mut rec = recorder();
    k.flash_attention_into(&mut rec, &t(0, &[2 * 70 * 384]), &t(1, &[2 * 70 * 128]), 2, 70, 2, 64)
        .unwrap();
    let d = one(rec);
    assert_eq!(d.grid, (4, 3, 1));
    assert_eq!(d.table[2], Bound::Words(vec![70, 384, 128, 2, 0.125f32.to_bits()], 32));
    let mut rec = recorder();
    assert_eq!(
        k.flash_attention_into(&mut rec, &t(0, &[9]), &t(1, &[9]), 1, 1, 1, 32).unwrap_err().message(),
        "flash attention is compiled for dim_head 64, got 32"
    );
}

#[test]
fn folded_softmax_products_need_whole_rows() {
    let k = kernels(true);
    let scale = 0.125f32.to_bits();
    let job = GemmJob { a_inner: 960, lda: 32, ..GemmJob::simple(30, 8, 30).batched(4) };
    let run = |stats: usize, job: GemmJob| {
        let mut rec = recorder();
        k.gemm_scores_av_into(
            &mut rec, &t(0, &[7680]), &t(1, &[stats]), &t(2, &[9999]), &t(3, &[9999]), job, scale,
        )
        .map(|_| one(rec))
        .map_err(|e| e.message())
    };
    let d = run(240, job).unwrap();
    assert_eq!((d.kernel, d.label), (Kernel::GemmBatchedBn64RowExp, "gemm_av_row_exp"));
    assert_eq!(d.grid, (1, 1, 4));
    assert_eq!(d.table[4], whole(1, 240));
    assert_eq!(d.table[5], words([scale, 30, 0, 0]));
    assert_eq!(
        run(239, job).unwrap_err(),
        "the folded softmax needs 240 statistics, the tensor holds 239"
    );
    assert_eq!(
        run(240, GemmJob { a_inner: 961, ..job }).unwrap_err(),
        "the folded softmax needs whole rows: a_inner 961 is not a multiple of lda 32"
    );
}

#[test]
fn spectra_are_checked_and_planned() {
    let k = kernels(false);
    let window = t(1, &[4096]);
    let mut rec = recorder();
    k.stft_cac_into(
        &mut rec, &t(0, &[1, 2, 9000]), &window, &t(2, &[1, 4, 2048, 5]), 1, 2, 9000, 5, 2048, 1024, 4096,
    )
    .unwrap();
    let d = one(rec);
    assert_eq!((d.kernel, d.grid), (Kernel::StftRfft4096, (5, 2, 1)));
    assert_eq!(
        d.table,
        vec![
            whole(0, 18000), whole(1, 4096), whole(2, 40960), words([5, 2048, 2, 1024]),
            words([9000, 2048, 1, 0]),
        ]
    );
    let mut rec = recorder();
    k.ispec_cac_into(
        &mut rec, &t(0, &[1, 8, 2048, 5]), &window, &t(2, &[4000]), 1, 2, 5, 2048, 1000,
    )
    .unwrap();
    let all = seen(rec);
    assert_eq!((all[0].kernel, all[0].grid), (Kernel::IstftIrfft4096, (5, 4, 1)));
    assert_eq!(all[0].table[2], Bound::Part(100, 0, 4 * 5 * 4096 * 4));
    assert_eq!(all[0].table[3], words([5, 2048, 8, 1]));
    assert_eq!((all[1].kernel, all[1].grid), (Kernel::IstftOla, (16, 1, 1)));
    assert_eq!(all[1].table[3], words([5, 1024, 4096, 1536]));
    assert_eq!(all[1].table[4], words([1000, 4, 1, 0]));
    let mut rec = recorder();
    assert_eq!(
        k.stft_cac_into(
            &mut rec, &t(0, &[1, 2, 9000]), &window, &t(2, &[1]), 1, 2, 9000, 5, 1024, 512, 2048,
        )
        .unwrap_err()
        .message(),
        "stft_cac needs nfft=4096, got 2048"
    );
    assert_eq!(
        k.ispec_cac_into(
            &mut rec, &t(0, &[1, 8, 2048, 5]), &t(1, &[4095]), &t(2, &[4000]), 1, 2, 5, 2048, 1000,
        )
        .unwrap_err()
        .message(),
        "istft window is shorter than nfft=4096"
    );
    let stft = |rec: &mut Recorder, padded: &[usize], out: &[usize]| {
        k.stft_cac_into(rec, &t(0, padded), &window, &t(2, out), 1, 2, 9000, 5, 2048, 1024, 4096)
            .unwrap_err()
            .message()
    };
    assert_eq!(
        stft(&mut rec, &[2, 9000], &[1, 4, 2048, 5]),
        "stft padded shape [2, 9000] != [1, 2, 9000]"
    );
    assert_eq!(stft(&mut rec, &[1, 2, 9000], &[]), "stft out shape [] != [1, 4, 2048, 5]");
    assert_eq!(
        k.ispec_cac_into(
            &mut rec, &t(0, &[1, 8, 2048, 6]), &window, &t(2, &[4000]), 1, 2, 5, 2048, 1000,
        )
        .unwrap_err()
        .message(),
        "ispec_cac spec shape [1, 8, 2048, 6] != [1, 8, 2048, 5]"
    );
    assert_eq!(
        k.ispec_cac_into(
            &mut rec, &t(0, &[1, 8, 2048, 5]), &window, &t(2, &[3999]), 1, 2, 5, 2048, 1000,
        )
        .unwrap_err()
        .message(),
        "ispec_cac out holds 3999 elements, need 4000"
    );
}

/// Moves elements as the kernel's text does, from the words bound to it.
fn permuted(d: &Seen, x: &[usize]) -> Vec<usize> {
    let (Bound::Words(gd, _), Bound::Words(ge, _)) = (&d.table[2], &d.table[3]) else {
        panic!("two tables of words");
    };
    let gd: Vec<usize> = gd.iter().map(|w| *w as usize).collect();
    let (heads, per_head, t) = (gd[1], gd[2], gd[3]);
    let (f, count) = (ge[0] as usize, ge[1] as usize);
    let mut out = vec![usize::MAX; count];
    for i in 0..count {
        let to = if ge[2] == 0 {
            let (fi, ti, c) = (i % f, i / f % t, i / f / t);
            let (b, h, j) = (c / (heads * per_head), c / per_head % heads, c % per_head);
            ((b * heads + h) * f + fi) * (t * per_head) + ti * per_head + j
        } else {
            let (j, ti, fi) = (i % per_head, i / per_head % t, i / per_head / t % f);
            let bb = i / per_head / t / f;
            ((bb / heads * heads * per_head + bb % heads * per_head + j) * t + ti) * f + fi
        };
        out[to] = x[i];
    }
    out
}

#[test]
fn permuting_heads_back_restores() {
    let k = kernels(false);
    let x: Vec<usize> = (0..2 * 3 * 4 * 5 * 7).collect();
    let (a, b) = (t(0, &[840]), t(1, &[840]));
    let mut rec = recorder();
    k.heads_permute_into(&mut rec, &a, &b, 2, 3, 4, 5, 7, false).unwrap();
    k.heads_permute_into(&mut rec, &b, &a, 2, 3, 4, 5, 7, true).unwrap();
    let all = seen(rec);
    let y = permuted(&all[0], &x);
    assert_ne!(y, x);
    // (b, h * per_head + j, t, f) = (1, 2 * 4 + 3, 4, 6) goes to (1 * 3 + 2, 6, 4, 3).
    assert_eq!(y[((5 * 7 + 6) * 5 + 4) * 4 + 3], ((12 + 11) * 5 + 4) * 7 + 6);
    assert_eq!(permuted(&all[1], &y), x);
    assert_eq!(permuted(&all[0], &permuted(&all[1], &x)), x);
}
