//! Probes: variants of the product's kernel to be timed against each other.
//!
//! The mutants compute nonsense. They are timed, never checked: each takes one kind of
//! work out of the kernel and leaves the rest.

use vstd::prelude::*;
use vstd::string::*;

use crate::gpu::arith;
use crate::gpu::gemm_source;
use crate::gpu::kernels;
use crate::gpu::recorder::BindingView;
use crate::gpu::shaders;
use crate::gpu::shaders::{GemmEpilogue, Tile};
use crate::gpu::shapes::GemmJob;
use crate::search;
use crate::text;

verus! {

// ------------------------------------------------------------------------ mutants

/// Whether, white space aside, an equals sign comes next.
pub open spec fn assigns(text: Seq<char>, at: int, end: int) -> bool
    decreases end - at,
{
    if at >= end {
        false
    } else if search::white(text[at]) {
        assigns(text, at + 1, end)
    } else {
        text[at] == '='
    }
}

fn is_assigned(text: &Vec<char>, from: usize, end: usize) -> (r: bool)
    requires
        from <= end <= text@.len(),
    ensures
        r == assigns(text@, from as int, end as int),
{
    let mut at: usize = from;
    while at < end && search::is_white(text[at])
        invariant
            from <= at <= end,
            end <= text@.len(),
            assigns(text@, from as int, end as int) == assigns(text@, at as int, end as int),
        decreases end - at,
    {
        at += 1;
    }
    at < end && text[at] == '='
}

/// Where the next access starts, and which pattern it is: the earlier of the two, the
/// first where they stand together.
pub open spec fn next_access(
    text: Seq<char>,
    first: Seq<char>,
    second: Seq<char>,
    at: int,
    end: int,
) -> Option<(int, Seq<char>)> {
    match (search::found(text, first, at, end), search::found(text, second, at, end)) {
        (Some(a), Some(b)) => if b < a {
            Some((b, second))
        } else {
            Some((a, first))
        },
        (Some(a), None) => Some((a, first)),
        (None, Some(b)) => Some((b, second)),
        (None, None) => None,
    }
}

/// A run of one line with every access by one of the patterns, up to its closing
/// bracket, pointed at element zero. With `reads_only` an access that is assigned to
/// stays as it is.
pub open spec fn stripped_line(
    text: Seq<char>,
    first: Seq<char>,
    second: Seq<char>,
    reads_only: bool,
    at: int,
    end: int,
) -> Seq<char>
    decreases end - at,
{
    proof {
        search::lemma_found(text, first, at, end);
        search::lemma_found(text, second, at, end);
    }
    match next_access(text, first, second, at, end) {
        Some((start, pattern)) => {
            proof {
                search::lemma_found_char(text, ']', start, end);
            }
            match search::found_char(text, ']', start, end) {
                Some(close) => text.subrange(at, start) + (if reads_only && assigns(
                    text,
                    close + 1,
                    end,
                ) {
                    text.subrange(start, close + 1)
                } else {
                    pattern + "0u]"@
                }) + stripped_line(text, first, second, reads_only, close + 1, end),
                None => text.subrange(at, end),
            }
        },
        None => text.subrange(at, end),
    }
}

/// Where the line at `at` ends, its line break included.
pub open spec fn line_end(text: Seq<char>, at: int) -> int {
    match search::found_char(text, '\n', at, text.len() as int) {
        Some(i) => i + 1,
        None => text.len() as int,
    }
}

/// A text with the accesses of each line pointed at element zero, from `at` on.
pub open spec fn stripped(
    text: Seq<char>,
    first: Seq<char>,
    second: Seq<char>,
    reads_only: bool,
    at: int,
) -> Seq<char>
    decreases text.len() - at,
{
    if at >= text.len() {
        Seq::empty()
    } else {
        proof {
            search::lemma_found_char(text, '\n', at, text.len() as int);
        }
        let end = line_end(text, at);
        stripped_line(text, first, second, reads_only, at, end) + stripped(
            text,
            first,
            second,
            reads_only,
            end,
        )
    }
}

/// Points every access by one of the patterns at element zero. The bindings stay live
/// and the loads still issue, but each hits the same place.
pub fn strip(source: &str, first: &str, second: &str, reads_only: bool) -> (r: String)
    ensures
        r@ == stripped(source@, first@, second@, reads_only, 0),
{
    let chars: Vec<char> = text::chars_of(source);
    let a: Vec<char> = text::chars_of(first);
    let b: Vec<char> = text::chars_of(second);
    let mut out = String::new();
    let mut line: usize = 0;
    while line < chars.len()
        invariant
            line <= chars@.len(),
            chars@ == source@,
            a@ == first@,
            b@ == second@,
            stripped(source@, first@, second@, reads_only, 0) == out@ + stripped(
                source@,
                first@,
                second@,
                reads_only,
                line as int,
            ),
        decreases chars@.len() - line,
    {
        let end: usize = match search::find_char(&chars, '\n', line, chars.len()) {
            Some(i) => i + 1,
            None => chars.len(),
        };
        let ghost goal = out@ + stripped_line(
            source@,
            first@,
            second@,
            reads_only,
            line as int,
            end as int,
        );
        let mut at: usize = line;
        let mut done = false;
        assert(out@ + stripped_line(source@, first@, second@, reads_only, at as int, end as int)
            =~= goal);
        while !done
            invariant
                line < end <= chars@.len(),
                line <= at <= end,
                chars@ == source@,
                a@ == first@,
                b@ == second@,
                !done ==> goal == out@ + stripped_line(
                    source@,
                    first@,
                    second@,
                    reads_only,
                    at as int,
                    end as int,
                ),
                done ==> goal == out@,
            decreases end - at + (if done {
                0int
            } else {
                1int
            }),
        {
            let left = search::find(&chars, &a, at, end);
            let right = search::find(&chars, &b, at, end);
            let access: Option<(usize, &str)> = match (left, right) {
                (Some(x), Some(y)) => if y < x {
                    Some((y, second))
                } else {
                    Some((x, first))
                },
                (Some(x), None) => Some((x, first)),
                (None, Some(y)) => Some((y, second)),
                (None, None) => None,
            };
            let closed: Option<(usize, usize, &str)> = match access {
                Some((start, pattern)) => match search::find_char(&chars, ']', start, end) {
                    Some(close) => Some((start, close, pattern)),
                    None => None,
                },
                None => None,
            };
            match closed {
                Some((start, close, pattern)) => {
                    let ghost before = out@;
                    let rest = stripped_rest(
                        source,
                        &chars,
                        pattern,
                        reads_only,
                        at,
                        start,
                        close,
                        end,
                    );
                    out.append(rest.as_str());
                    proof {
                        let tail = stripped_line(
                            source@,
                            first@,
                            second@,
                            reads_only,
                            close + 1,
                            end as int,
                        );
                        assert(goal =~= before + (rest@ + tail));
                        assert(goal =~= out@ + tail);
                    }
                    at = close + 1;
                },
                None => {
                    out.append(source.substring_char(at, end));
                    done = true;
                },
            }
        }
        proof {
            let tail = stripped(source@, first@, second@, reads_only, end as int);
            assert(stripped(source@, first@, second@, reads_only, 0) =~= out@ + tail);
        }
        line = end;
    }
    assert(stripped(source@, first@, second@, reads_only, 0) =~= out@);
    out
}

fn stripped_rest(
    source: &str,
    chars: &Vec<char>,
    pattern: &str,
    reads_only: bool,
    at: usize,
    start: usize,
    close: usize,
    end: usize,
) -> (r: String)
    requires
        chars@ == source@,
        at <= start <= close < end <= source@.len(),
    ensures
        r@ == source@.subrange(at as int, start as int) + (if reads_only && assigns(
            source@,
            close + 1,
            end as int,
        ) {
            source@.subrange(start as int, close + 1)
        } else {
            pattern@ + "0u]"@
        }),
{
    let mut r = String::from_str(source.substring_char(at, start));
    if reads_only && is_assigned(chars, close + 1, end) {
        r.append(source.substring_char(start, close + 1));
    } else {
        r.append(pattern);
        r.append("0u]");
        assert(r@ =~= source@.subrange(at as int, start as int) + (pattern@ + "0u]"@));
    }
    r
}

/// A text without `pattern`, from `at` on.
pub open spec fn removed(text: Seq<char>, pattern: Seq<char>, at: int) -> Seq<char>
    decreases text.len() - at,
{
    proof {
        search::lemma_found(text, pattern, at, text.len() as int);
    }
    match search::found(text, pattern, at, text.len() as int) {
        Some(i) => if pattern.len() == 0 {
            text.subrange(at, text.len() as int)
        } else {
            text.subrange(at, i) + removed(text, pattern, i + pattern.len())
        },
        None => text.subrange(at, text.len() as int),
    }
}

/// How often `pattern` stands in a text from `at` on, one place behind the other.
pub open spec fn occurrences(text: Seq<char>, pattern: Seq<char>, at: int) -> nat
    decreases text.len() - at,
{
    proof {
        search::lemma_found(text, pattern, at, text.len() as int);
    }
    match search::found(text, pattern, at, text.len() as int) {
        Some(i) => if pattern.len() == 0 {
            0
        } else {
            1 + occurrences(text, pattern, i + pattern.len())
        },
        None => 0,
    }
}

/// Takes every `pattern` out.
pub fn remove_all(source: &str, pattern: &str) -> (r: String)
    requires
        pattern@.len() > 0,
    ensures
        r@ == removed(source@, pattern@, 0),
{
    let chars: Vec<char> = text::chars_of(source);
    let wanted: Vec<char> = text::chars_of(pattern);
    let mut out = String::new();
    let mut at: usize = 0;
    loop
        invariant_except_break
            removed(source@, pattern@, 0) == out@ + removed(source@, pattern@, at as int),
        invariant
            at <= chars@.len(),
            chars@ == source@,
            wanted@ == pattern@,
            pattern@.len() > 0,
        ensures
            removed(source@, pattern@, 0) == out@,
        decreases chars@.len() - at,
    {
        match search::find(&chars, &wanted, at, chars.len()) {
            Some(i) => {
                let ghost before = out@;
                out.append(source.substring_char(at, i));
                proof {
                    let tail = removed(source@, pattern@, i + pattern@.len());
                    assert(removed(source@, pattern@, 0) =~= before + (source@.subrange(
                        at as int,
                        i as int,
                    ) + tail));
                    assert(removed(source@, pattern@, 0) =~= out@ + tail);
                }
                at = i + wanted.len();
            },
            None => {
                out.append(source.substring_char(at, chars.len()));
                break;
            },
        }
    }
    out
}

proof fn lemma_occurrences(text: Seq<char>, pattern: Seq<char>, at: int)
    requires
        pattern.len() > 0,
        at <= text.len(),
    ensures
        occurrences(text, pattern, at) * pattern.len() <= text.len() - at,
    decreases text.len() - at,
{
    search::lemma_found(text, pattern, at, text.len() as int);
    if let Some(i) = search::found(text, pattern, at, text.len() as int) {
        let rest = occurrences(text, pattern, i + pattern.len());
        lemma_occurrences(text, pattern, i + pattern.len());
        assert((1 + rest) * pattern.len() == pattern.len() + rest * pattern.len())
            by (nonlinear_arith);
    } else {
        assert(0 * pattern.len() == 0) by (nonlinear_arith);
    }
}

/// How often `pattern` stands in a text.
pub fn count_all(source: &str, pattern: &str) -> (r: usize)
    requires
        pattern@.len() > 0,
    ensures
        r == occurrences(source@, pattern@, 0),
        r * pattern@.len() <= source@.len() <= usize::MAX,
{
    let chars: Vec<char> = text::chars_of(source);
    let wanted: Vec<char> = text::chars_of(pattern);
    let have: usize = chars.len();
    proof {
        lemma_occurrences(source@, pattern@, 0);
    }
    let mut count: usize = 0;
    let mut at: usize = 0;
    loop
        invariant_except_break
            occurrences(source@, pattern@, 0) == count + occurrences(source@, pattern@, at as int),
        invariant
            at <= chars@.len(),
            have == chars@.len(),
            count <= at,
            chars@ == source@,
            wanted@ == pattern@,
            pattern@.len() > 0,
        ensures
            occurrences(source@, pattern@, 0) == count,
        decreases chars@.len() - at,
    {
        match search::find(&chars, &wanted, at, have) {
            Some(i) => {
                count += 1;
                at = i + wanted.len();
            },
            None => {
                break;
            },
        }
    }
    count
}

// ------------------------------------------------------------------------- probes

/// One kernel to be timed.
#[derive(Debug)]
pub struct Variant {
    /// What it is called in the report.
    pub label: &'static str,
    /// What its pipeline is called.
    pub name: &'static str,
    pub source: String,
    pub grid: (u32, u32, u32),
}

impl Variant {
    pub open spec fn is(
        self,
        label: Seq<char>,
        name: Seq<char>,
        source: Seq<char>,
        grid: (u32, u32, u32),
    ) -> bool {
        &&& self.label@ == label
        &&& self.name@ == name
        &&& self.source@ == source
        &&& self.grid == grid
    }
}

/// Kernels to be timed on the same operands, and the operands' sizes. The uniforms are
/// bound as 64 bytes between the product and the bias.
#[derive(Debug)]
pub struct Probe {
    pub variants: Vec<Variant>,
    pub dims: Vec<u32>,
    pub a: usize,
    pub b: usize,
    pub c: usize,
    pub bias: usize,
}

/// The transposed product of one batch that the probes time.
pub open spec fn probe_job(m: usize, n: usize, k: usize) -> GemmJob {
    GemmJob {
        m,
        n,
        k,
        lda: arith::padded(k as int, shaders::BK as int) as usize,
        ldb: arith::padded(k as int, shaders::BN as int) as usize,
        ldc: n,
        batches: 1,
        inner_count: 1,
        a_outer: 0,
        a_inner: 0,
        b_outer: 0,
        b_inner: 0,
        c_outer: 0,
        c_inner: 0,
        transb: true,
    }
}

/// Whether the operands of a probe can be counted.
pub open spec fn probe_fits(m: usize, n: usize, k: usize) -> bool {
    let lda = arith::padded(k as int, shaders::BK as int);
    let ldb = arith::padded(k as int, shaders::BN as int);
    let rows = arith::padded(m as int, shaders::BM as int);
    let columns = arith::padded(n as int, shaders::BN as int);
    &&& ldb <= usize::MAX
    &&& lda <= usize::MAX
    &&& rows <= usize::MAX
    &&& arith::padded(m as int, shaders::BM96 as int) <= usize::MAX
    &&& columns <= usize::MAX
    &&& rows * lda <= usize::MAX
    &&& columns * ldb <= usize::MAX
    &&& m * n <= usize::MAX
}

impl Probe {
    /// Whether the operands are those of the product.
    pub open spec fn fits(self, m: usize, n: usize, k: usize) -> bool {
        let job = probe_job(m, n, k);
        &&& kernels::dims(job) == (BindingView::Uniform { words: self.dims@, size: 64 })
        &&& self.a == arith::padded(m as int, shaders::BM as int) * job.lda
        &&& self.b == arith::padded(n as int, shaders::BN as int) * job.ldb
        &&& self.c == m * n
        &&& self.bias == n
    }
}

fn operands(m: usize, n: usize, k: usize, variants: Vec<Variant>) -> (r: Probe)
    requires
        probe_fits(m, n, k),
    ensures
        r.fits(m, n, k),
        r.variants == variants,
{
    let job = job_of(m, n, k);
    Probe {
        variants,
        dims: kernels::dims_of(job),
        a: arith::pad_ceil(m, shaders::BM) * job.lda,
        b: arith::pad_ceil(n, shaders::BN) * job.ldb,
        c: m * n,
        bias: n,
    }
}

fn job_of(m: usize, n: usize, k: usize) -> (r: GemmJob)
    requires
        probe_fits(m, n, k),
    ensures
        r == probe_job(m, n, k),
{
    GemmJob {
        m,
        n,
        k,
        lda: arith::pad_ceil(k, shaders::BK),
        ldb: arith::pad_ceil(k, shaders::BN),
        ldc: n,
        batches: 1,
        inner_count: 1,
        a_outer: 0,
        a_inner: 0,
        b_outer: 0,
        b_inner: 0,
        c_outer: 0,
        c_inner: 0,
        transb: true,
    }
}

/// The kernel the plateau probe takes work out of.
pub open spec fn base() -> Seq<char> {
    shaders::gemm_transb_plain_bias_wgsl()
}

/// What separates the product's kernel from its ceiling: the kernel itself, one that
/// reads its operands from one place, one without barriers, and one that reads the
/// shared tiles from one place. With it, how many reads were pointed elsewhere and how
/// many barriers there are.
pub fn plateau_probe(m: usize, n: usize, k: usize) -> (r: (Probe, usize, usize))
    requires
        probe_fits(m, n, k),
    ensures
        r.0.fits(m, n, k),
        r.0.variants@.len() == 4,
        ({
            let grid = probe_job(m, n, k).grid_spec(shaders::BM as int, shaders::BN as int);
            let v = r.0.variants@;
            &&& v[0].is("real"@, "probe_real"@, base(), grid)
            &&& v[1].is(
                "no_global"@,
                "probe_no_global"@,
                stripped(base(), "A["@, "B["@, false, 0),
                grid,
            )
            &&& v[2].is(
                "no_barrier"@,
                "probe_no_barrier"@,
                removed(base(), "    workgroupBarrier();\n"@, 0),
                grid,
            )
            &&& v[3].is(
                "no_shared"@,
                "probe_no_shared"@,
                stripped(base(), "As["@, "Bs["@, true, 0),
                grid,
            )
        }),
        r.1 == occurrences(base(), "A["@, 0) + occurrences(base(), "B["@, 0),
        r.2 == occurrences(base(), "workgroupBarrier();"@, 0),
{
    proof {
        reveal_strlit("A[");
        reveal_strlit("B[");
        reveal_strlit("    workgroupBarrier();\n");
        reveal_strlit("workgroupBarrier();");
    }
    let source = shaders::gemm_transb_plain_bias();
    let grid = job_of(m, n, k).grid_with(shaders::BM, shaders::BN);
    let no_global = strip(source.as_str(), "A[", "B[", false);
    let no_barrier = remove_all(source.as_str(), "    workgroupBarrier();\n");
    let no_shared = strip(source.as_str(), "As[", "Bs[", true);
    let loads: usize = count_all(source.as_str(), "A[") + count_all(source.as_str(), "B[");
    let barriers: usize = count_all(source.as_str(), "workgroupBarrier();");
    let mut variants: Vec<Variant> = Vec::new();
    variants.push(Variant { label: "real", name: "probe_real", source, grid });
    variants.push(Variant { label: "no_global", name: "probe_no_global", source: no_global, grid });
    variants.push(
        Variant { label: "no_barrier", name: "probe_no_barrier", source: no_barrier, grid },
    );
    variants.push(Variant { label: "no_shared", name: "probe_no_shared", source: no_shared, grid });
    (operands(m, n, k, variants), loads, barriers)
}

/// The text of a tile's kernel, narrow or wide.
#[verifier::opaque]
pub open spec fn tile_text(tile: Tile, wide: bool) -> Seq<char> {
    gemm_source::gemm_wgsl(shaders::variant_form(tile, true, GemmEpilogue::Bias, wide))
}

fn tile_variant(label: &'static str, job: &GemmJob, tile: Tile, wide: bool) -> (r: Variant)
    requires
        shaders::compiled_tile(tile),
        job.grid_fits(tile.bm, tile.bn),
    ensures
        r.is(
            label@,
            "tile_probe"@,
            tile_text(tile, wide),
            job.grid_spec(tile.bm as int, tile.bn as int),
        ),
{
    proof {
        reveal(tile_text);
        shaders::lemma_compiled_forms(
            shaders::variant_form(tile, true, GemmEpilogue::Bias, wide),
        );
    }
    let source = shaders::gemm_variant(tile, true, GemmEpilogue::Bias, wide);
    Variant { label, name: "tile_probe", source, grid: job.grid_with(tile.bm, tile.bn) }
}

/// The product over the tiles there are: which one keeps the device busiest. The
/// operands are padded for the widest, so one set serves all; the grid follows the
/// tile.
pub fn tile_probe(m: usize, n: usize, k: usize) -> (r: Probe)
    requires
        probe_fits(m, n, k),
    ensures
        r.fits(m, n, k),
        r.variants@.len() == 5,
        ({
            let job = probe_job(m, n, k);
            let square = Tile::square_spec();
            let v = r.variants@;
            &&& v[0].is(
                "128x128 vec2"@,
                "tile_probe"@,
                tile_text(square, false),
                job.grid_spec(128, 128),
            )
            &&& v[1].is(
                "128x128 vec4"@,
                "tile_probe"@,
                tile_text(square, true),
                job.grid_spec(128, 128),
            )
            &&& v[2].is(
                "64x128 vec4"@,
                "tile_probe"@,
                tile_text(Tile { bm: 64, ..square }, true),
                job.grid_spec(64, 128),
            )
            &&& v[3].is(
                "96x128 vec4"@,
                "tile_probe"@,
                tile_text(Tile { bm: 96, ..square }, true),
                job.grid_spec(96, 128),
            )
            &&& v[4].is(
                "64x64 vec4"@,
                "tile_probe"@,
                tile_text(Tile { bm: 64, bn: 64, ..square }, true),
                job.grid_spec(64, 64),
            )
        }),
{
    let job = job_of(m, n, k);
    proof {
        kernels::lemma_narrow_tile(m as int);
        kernels::lemma_narrow_tile(n as int);
    }
    let mut variants: Vec<Variant> = Vec::new();
    variants.push(tile_variant("128x128 vec2", &job, Tile::square(), false));
    variants.push(tile_variant("128x128 vec4", &job, Tile::square(), true));
    variants.push(tile_variant("64x128 vec4", &job, Tile::bm64_bn128(), true));
    variants.push(tile_variant("96x128 vec4", &job, Tile::bm96_bn128(), true));
    variants.push(tile_variant("64x64 vec4", &job, Tile::bm64_bn64(), true));
    operands(m, n, k, variants)
}

} // verus!
