use demucs_core::gpu::kernels::{Kernels, Settings};
use demucs_core::gpu::pipelines::{pipelines, Kernel};
use demucs_core::gpu::shaders;

/// The 64-bit Fowler-Noll-Vo digest, variant 1a.
fn digest(text: &str) -> u64 {
    let mut hash: u64 = 0xcbf29ce484222325;
    for byte in text.bytes() {
        hash = (hash ^ byte as u64).wrapping_mul(0x100000001b3);
    }
    hash
}

#[test]
fn every_other_kernel_has_its_exact_text() {
    let forms = [
        (shaders::add_in_place(), 598, 0x149b4224e3f1f15c),
        (shaders::add_in_place_vec4(), 987, 0xca17c416868537bc),
        (shaders::add_row_bias_in_place(), 547, 0x9a451c2387ad27c7),
        (shaders::batch_affine_in_place(), 634, 0x64318b0b1d78b2dc),
        (shaders::batch_moments(), 1318, 0xe6e74f99406c5c59),
        (shaders::batch_moments_combine(), 934, 0x1b88afbd9c9ee0cf),
        (shaders::batch_moments_partial(), 1537, 0x0c6d101726903cd8),
        (shaders::batch_normalize_in_place(), 619, 0x7f65ecf99fe0eab1),
        (shaders::channel_affine_act_add(), 1331, 0x13d9e8c4d4236a3c),
        (shaders::channel_affine_act_in_place(), 1208, 0x19aa4ee72f820bbd),
        (shaders::col2im(), 1991, 0xbc818620c216b4e2),
        (shaders::copy(), 450, 0x67f96eb9f85f12fe),
        (shaders::copy_pitched(), 845, 0x0c1c910845907a14),
        (shaders::crop_rows(), 724, 0x312d00a5051a84f7),
        (shaders::fill_zero(), 398, 0xb47e164b7a8452fd),
        (shaders::flash_attention(), 4041, 0xd960ae1785c58f3a),
        (shaders::fma_probe(1000), 2064, 0x99dd8309254169ee),
        (shaders::gelu(), 776, 0xd94ef4430c483e1c),
        (shaders::gelu_in_place(), 743, 0xc52d29941fb5bcb7),
        (shaders::gelu_in_place_vec4(), 1158, 0xf6b488cfc1414344),
        (shaders::glu(), 657, 0x3f9411a8c26bce90),
        (shaders::glu_channel_affine(), 1114, 0x7ca80ef927375074),
        (shaders::glu_channel_affine_add(), 1188, 0x2eb10383d0733f3b),
        (shaders::group_norm(), 2495, 0x87f4cdfd57b4a73a),
        (shaders::group_norm_apply(), 2791, 0x43786c0189837013),
        (shaders::group_norm_apply_from_partials(), 2741, 0xc7aa83410ce0e3ab),
        (shaders::group_norm_combine(), 1239, 0xa76458635d354fc2),
        (shaders::group_norm_partial(), 2563, 0x2776da56d3a71de5),
        (shaders::heads_permute(), 1613, 0x10dc9cdb66b15de2),
        (shaders::im2col(), 3230, 0x4839bf4a9a82939f),
        (shaders::istft_irfft4096(), 2543, 0x740fdd01c416427d),
        (shaders::istft_ola(), 1658, 0x31e10aa0c521d1ef),
        (shaders::lstm_recur(), 3854, 0xd45a89c21c7cc54a),
        (shaders::lstm_recur_regs(8), 4641, 0x41cdbc72640a42f9),
        (shaders::lstm_recur_regs(96), 15939, 0x894fdb52c29279b3),
        (shaders::mul_in_place(), 477, 0xeac0f8224352749e),
        (shaders::rms_norm(), 1691, 0x15f42cf1a2ac03ba),
        (shaders::rms_norm_warp(), 3937, 0x144f546e32d9ba7b),
        (shaders::rope(), 1348, 0x905c84e029a60004),
        (shaders::sigmoid_gate(), 776, 0x37a196d2d6e26452),
        (shaders::softmax(), 1940, 0x4b0a988a4b5503d4),
        (shaders::softmax_in_place(), 8056, 0xec1fbc07b10267da),
        (shaders::softmax_scaled_warp(), 2433, 0xe2510937175846ff),
        (shaders::softmax_stats_warp(), 2078, 0x9a39be9e17cb31f6),
        (shaders::softmax_warp(), 1678, 0xc7b68186b420fd23),
        (shaders::stft_rfft4096(), 2745, 0xa7f8a92af94ad6ca),
        (shaders::tanh(), 641, 0x8296cb6e81a651ff),
        (shaders::tanh_bias_in_place(), 611, 0x22c81274ce89b428),
        (shaders::transpose(), 794, 0x744ac02881917920),
    ];
    let wrong: Vec<(usize, usize, usize)> = forms
        .iter()
        .enumerate()
        .filter(|(_, (source, len, hash))| source.len() != *len || digest(source) != *hash)
        .map(|(index, (source, len, _))| (index, source.len(), *len))
        .collect();
    assert!(wrong.is_empty(), "{wrong:?}");
}

#[test]
fn a_device_without_shuffles_compiles_fewer_pipelines() {
    let all = pipelines(true);
    let without = pipelines(false);
    assert_eq!(all.len(), 67);
    assert_eq!(without.len(), 63);
    let shuffled: Vec<&str> =
        all.iter().filter(|p| p.kernel.needs_shuffle()).map(|p| p.label).collect();
    assert_eq!(
        shuffled,
        vec!["rms_norm_warp", "softmax_in_place_warp", "softmax_scaled_warp", "softmax_stats_warp"]
    );
    assert!(without.iter().all(|p| !p.kernel.needs_shuffle()));
    let settings = Settings::read(None, None, None, None, None, None, None, None, None);
    assert_eq!(Kernels::new(true, settings).pipelines().len(), 67);
}

#[test]
fn every_pipeline_defines_its_entry_and_has_a_label_of_its_own() {
    let all = pipelines(true);
    for (i, p) in all.iter().enumerate() {
        assert!(p.source.contains(&format!("fn {}(", p.entry)), "{}", p.label);
        assert!(!p.source.contains("${"), "{}", p.label);
        assert!(p.source.contains("@compute"), "{}", p.label);
        assert!(all[..i].iter().all(|q| q.label != p.label && q.kernel != p.kernel));
    }
    let regs = Kernel::LstmRecurRegs { hidden: 12 }.pipeline();
    assert_eq!((regs.label, regs.entry), ("lstm_recur_regs", "lstm_recur_regs"));
    assert_eq!(regs.source, shaders::lstm_recur_regs(12));
}
