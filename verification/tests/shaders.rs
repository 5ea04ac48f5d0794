use demucs_core::gpu::shaders;
use demucs_core::gpu::shaders::{
    gemm_f32, GemmEpilogue, Tile, BK, BM, BM96, BN, PAD, PW, ROW_SLOTS, THREADS_X, THREADS_Y,
};

#[test]
fn gemm_tiles_divide_evenly() {
    assert_eq!(BM % THREADS_Y, 0);
    assert_eq!(BN % THREADS_X, 0);
    assert_eq!(BM96 % THREADS_Y, 0);
    assert_eq!(BM96 * ROW_SLOTS % (THREADS_X * THREADS_Y), 0);
    assert_eq!(BM * BK % (THREADS_X * THREADS_Y), 0);
    assert_eq!(BN * BK % (THREADS_X * THREADS_Y), 0);
    let t = Tile::square();
    assert_eq!((t.bm / t.ty) * (t.bn / t.tx), 64, "8x8 accumulators per thread");
    // The 64-wide N tile has to stage whole rows too.
    let n64 = Tile::bn64();
    assert_eq!(n64.bn * ROW_SLOTS % (n64.tx * n64.ty), 0);
}

#[test]
fn shared_tiles_stay_vec2_aligned() {
    // A stride of `PAD` f32 per row has to be even, or every `vec2` access
    // past the first row lands on an odd word and the driver has to split it.
    assert_eq!(PAD % 2, 0);
    assert_eq!(BM * BK % (THREADS_X * THREADS_Y * 2), 0);
    assert_eq!(BN * BK % (THREADS_X * THREADS_Y * 2), 0);
    // The staging walk has to cover every payload slot exactly; a pitch that
    // does not divide the thread count leaves rows holding whatever was in
    // shared memory before.
    assert_eq!(BM * ROW_SLOTS % (THREADS_X * THREADS_Y), 0);
    assert_eq!(BN * ROW_SLOTS % (THREADS_X * THREADS_Y), 0);
    assert!(PW >= ROW_SLOTS, "the pitch must leave room for the payload");
    let bytes = 2 * BM * PW * 8;
    assert!(bytes <= 32 * 1024, "shared tiles use {bytes} bytes");
}

#[test]
fn shader_substitutes_every_constant() {
    let source = gemm_f32(false);
    assert!(source.contains("const BM: u32 = 128u;"));
    assert!(source.contains("const PAD: u32 = 18u;"));
    assert!(source.contains("@workgroup_size(16, 16)"));
    assert!(source.contains("array<vec2<f32>, 1152>"));
    for placeholder in [
        "{bm}", "{bn}", "{bk}", "{pad}", "{pw}", "{tm}", "{tn}", "{tx}", "{ty}",
        "{as_len}", "{bs_len}", "{accumulators}", "{prefetch_decl}", "{store_stage0}",
        "{prefetch}", "{compute}", "{store_prefetch}", "{epilogue}", "{batch_base}",
        "@A@", "@B@", "@C@",
    ] {
        assert!(
            !source.contains(placeholder),
            "placeholder {placeholder} was left unsubstituted"
        );
    }
}

#[test]
fn shared_reads_are_vectorised() {
    let source = gemm_f32(false);
    // 8 a-slices + 8 b-slices per vector step, each one load. The shared
    // row bases are hoisted out of the K loop (`ar{i}`/`br{j}`), so every
    // step's access is a constant offset from one.
    assert!(source.contains("let a0 = As[ar0 + 0u];"));
    assert!(source.contains("let b0 = Bs[br0 + 0u];"));
    // Two FMAs per accumulator pair, one per vector lane.
    assert!(source.contains("c0_0 = fma(a0.x, b0.x, c0_0);"));
    assert!(source.contains("c0_0 = fma(a0.y, b0.y, c0_0);"));
    assert!(!source.contains("As[(ty * TM"), "scalar row ownership is back");
}

#[test]
fn accumulator_ownership_is_strided_to_avoid_bank_conflicts() {
    // Striding by the thread count makes the address stride `PAD` words
    // (18, even but spreading across banks) instead of `TM * PAD`.
    let source = gemm_f32(false);
    assert!(source.contains("let ar1 = (ty + 1u * TY) * PW;"));
    assert!(source.contains("let br1 = (tx + 1u * TX) * PW;"));
}

/// FNV-1a over a text's bytes.
fn digest(text: &str) -> u64 {
    let mut hash: u64 = 0xcbf29ce484222325;
    for byte in text.bytes() {
        hash = (hash ^ byte as u64).wrapping_mul(0x100000001b3);
    }
    hash
}

#[test]
fn every_product_kernel_has_its_exact_text() {
    let forms: Vec<(String, usize, u64)> = vec![
        (shaders::gemm_f32(false), 65619, 0x07cf55842edaf9c1),
        (shaders::gemm_f32(true), 66650, 0xe925543f99eb49b5),
        (shaders::gemm_f32_transb(false), 65619, 0x2d2f83793198fa95),
        (shaders::gemm_f32_transb(true), 66650, 0x703aefaefab22a51),
        (shaders::gemm_batched_bn64(), 37914, 0xe41ea2e238cd2089),
        (shaders::gemm_batched_bn64_row_exp(), 38866, 0x74326b90855da3d9),
        (shaders::gemm_transb_bn64(), 37914, 0x52a1a50272272a6d),
        (shaders::gemm_transb_bm64(), 21734, 0x872daf66ad6b9ab9),
        (shaders::gemm_batched_bm64(), 21734, 0x5d9ec4b11461a1cd),
        (shaders::gemm_bm64(), 36959, 0x03a2a4a65c947841),
        (shaders::gemm_conv_direct(), 38190, 0xcabc92c4cccb7d34),
        (shaders::gemm_conv_direct_batched(), 38821, 0x1de714ce659b4016),
        (shaders::gemm_bm64_coalesced(), 37007, 0xa0acce188395db51),
        (shaders::gemm_batched_bm64_bn128(), 37670, 0x95c43109cdef2891),
        (shaders::gemm_batched_bm96_bn128(), 52159, 0xc4ef355f16d3e657),
        (shaders::gemm_batched_bm64_bn128_coalesced(), 37718, 0x9cf5252f0b705811),
        (shaders::gemm_bias(), 65317, 0x23a8fbc9bd6dfe85),
        (shaders::gemm_batched_row_bias(Tile::bm96_bn128(), false), 53004, 0x6c0ee62d04aa695d),
        (shaders::gemm_transb_plain_bias(), 64286, 0xde4cfe9d66aacc15),
        (shaders::gemm_gelu_bias(), 66312, 0x977d2384275a33fe),
        (shaders::gemm_residual(), 68698, 0x83961db4c4804955),
        (shaders::gemm_bias_residual(), 67365, 0x7bd2be2a138507c5),
        (shaders::gemm_gelu_residual(), 69693, 0x0f6a4a9beed936ee),
        (shaders::gemm_gelu_bias_residual(), 68360, 0xd6a3808a434dcc9e),
        (shaders::gemm_variant(Tile::bm64_bn64(), true, GemmEpilogue::Bias, true), 18952, 0x7767c95b705a1760),
        (shaders::gemm_variant(Tile::square(), false, GemmEpilogue::Plain, true), 61453, 0x4f25f8906dc7f54a),
    ];
    for (index, (source, len, hash)) in forms.iter().enumerate() {
        assert_eq!(source.len(), *len, "length of form {index}");
        assert_eq!(digest(source), *hash, "text of form {index}");
    }
}

#[test]
fn the_coalesced_walk_covers_every_k_block() {
    let walked = [
        shaders::gemm_bm64_coalesced(),
        shaders::gemm_batched_bm64_bn128_coalesced(),
        shaders::gemm_conv_direct(),
        shaders::gemm_conv_direct_batched(),
    ];
    for source in walked.iter() {
        for e in 0..4 {
            // The first block, the prefetch of the others, and its store.
            for (index, column, pair) in [("vi", "vr", "vc"), ("bi", "by", "bx"), ("ui", "ur", "uc")] {
                assert!(source.contains(&format!("let {column}{e} = {index}{e} % 128u;")));
                assert!(source.contains(&format!("let {pair}{e} = {index}{e} / 128u;")));
            }
        }
    }
    // `A` keeps its own walk, and the default walk of `B` runs along K.
    assert!(walked[0].contains("let ar0 = ai0 / 8u;"));
    assert!(shaders::gemm_bm64().contains("let by0 = bi0 / 8u;"));
    assert!(shaders::gemm_bm64().contains("let ur0 = ui0 / 8u;"));
}

#[test]
fn transposing_moves_the_reads_of_b_alone() {
    let masked = |text: &str| {
        let mut out = String::new();
        let mut rest = text;
        while let Some(at) = rest.find("B[") {
            out.push_str(&rest[..at + 2]);
            rest = &rest[at..];
            rest = &rest[rest.find(']').unwrap()..];
        }
        out + rest
    };
    for batched in [false, true] {
        let plain = shaders::gemm_f32(batched);
        let turned = shaders::gemm_f32_transb(batched);
        assert_ne!(plain, turned);
        assert_eq!(masked(&plain), masked(&turned));
        let base = if batched { "bbase + " } else { "" };
        assert!(plain.contains(&format!("B[{base}(k1 + bx3 * 2u + 1u) * gd.ldb + n0 + by3]")));
        assert!(turned.contains(&format!("B[{base}(n0 + by3) * gd.ldb + k1 + bx3 * 2u + 1u]")));
        assert!(plain.contains(&format!("B[{base}(vc3 * 2u + 1u) * gd.ldb + n0 + vr3]")));
        assert!(turned.contains(&format!("B[{base}(n0 + vr3) * gd.ldb + vc3 * 2u + 1u]")));
    }
}

#[test]
fn epilogues_know_what_they_read() {
    assert!(!GemmEpilogue::Plain.has_bias());
    assert!(GemmEpilogue::Bias.has_bias());
    assert!(GemmEpilogue::GeluBias.has_bias());
    assert!(GemmEpilogue::RowBias.has_bias());
    assert!(GemmEpilogue::BiasResidual.has_bias() && GemmEpilogue::BiasResidual.has_residual());
    assert!(!GemmEpilogue::Residual.has_bias() && GemmEpilogue::Residual.has_residual());
    assert!(GemmEpilogue::GeluBias.has_gelu() && !GemmEpilogue::GeluBias.has_residual());
    assert!(GemmEpilogue::GeluResidual.has_gelu() && !GemmEpilogue::GeluResidual.has_bias());
    let all = GemmEpilogue::GeluBiasResidual;
    assert!(all.has_bias() && all.has_gelu() && all.has_residual());
}
