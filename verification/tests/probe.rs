use demucs_core::gpu::probe::{count_all, plateau_probe, remove_all, strip, tile_probe};
use demucs_core::gpu::shaders;

#[test]
fn indices_are_stripped_to_zero() {
    assert_eq!(
        strip("x = A[i] + B[j + 1]; y = C[k];\n", "A[", "B[", false),
        "x = A[0u] + B[0u]; y = C[k];\n"
    );
    // Stores keep their index where only reads are meant.
    assert_eq!(
        strip("As[i] = As[j];\n  Bs[k]  = 1.0;\n", "As[", "Bs[", true),
        "As[i] = As[0u];\n  Bs[k]  = 1.0;\n"
    );
    // A bracket that does not close on its line is left alone.
    assert_eq!(strip("A[i\n]", "A[", "B[", false), "A[i\n]");
    assert_eq!(strip("", "A[", "B[", false), "");
}

#[test]
fn patterns_are_removed_and_counted() {
    assert_eq!(remove_all("abcabcab", "abc"), "ab");
    assert_eq!(count_all("aaaa", "aa"), 2);
    assert_eq!(count_all("none", "x"), 0);
}

#[test]
fn the_plateau_probe_rewrites_one_cost_at_a_time() {
    let (probe, loads, barriers) = plateau_probe(300, 200, 40);
    let base = shaders::gemm_transb_plain_bias();
    assert_eq!(loads, base.matches("A[").count() + base.matches("B[").count());
    assert_eq!(barriers, base.matches("workgroupBarrier();").count());
    let labels: Vec<(&str, &str)> = probe.variants.iter().map(|v| (v.label, v.name)).collect();
    assert_eq!(
        labels,
        vec![
            ("real", "probe_real"),
            ("no_global", "probe_no_global"),
            ("no_barrier", "probe_no_barrier"),
            ("no_shared", "probe_no_shared"),
        ]
    );
    assert_eq!(probe.variants[0].source, base);
    assert_eq!(probe.variants[2].source, base.replace("    workgroupBarrier();\n", ""));
    assert!(probe.variants.iter().all(|v| v.grid == (3, 2, 1)));
    assert_eq!(probe.dims, vec![300, 200, 40, 48, 128, 200, 1, 0, 0, 0, 0, 0, 0, 0]);
    assert_eq!((probe.a, probe.b, probe.c, probe.bias), (384 * 48, 256 * 128, 60000, 200));
}

#[test]
fn the_tile_probe_compares_the_tiles() {
    let probe = tile_probe(300, 200, 40);
    let shown: Vec<(&str, (u32, u32, u32))> =
        probe.variants.iter().map(|v| (v.label, v.grid)).collect();
    assert_eq!(
        shown,
        vec![
            ("128x128 vec2", (3, 2, 1)),
            ("128x128 vec4", (3, 2, 1)),
            ("64x128 vec4", (5, 2, 1)),
            ("96x128 vec4", (4, 2, 1)),
            ("64x64 vec4", (5, 4, 1)),
        ]
    );
    assert_eq!(
        probe.variants[4].source,
        shaders::gemm_variant(
            shaders::Tile::bm64_bn64(), true, shaders::GemmEpilogue::Bias, true
        )
    );
    assert_eq!(probe.a, 384 * 48);
}
