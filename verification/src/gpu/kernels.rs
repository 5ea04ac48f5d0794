//! The operations: each checks its operands and records the kernel launches that
//! compute it.
//!
//! Every operation has a plan, a function from the pass so far to the pass after
//! it, and the executable form is proved to follow its plan: it records exactly
//! those launches, or stops with exactly that error.

use vstd::prelude::*;

use crate::error::{Error, ErrorView, Fault};
use crate::gpu::arith;
use crate::gpu::pipelines;
use crate::gpu::pipelines::{Kernel, PipelineSource};
use crate::gpu::recorder;
use crate::gpu::recorder::{BindingView, Plan, Recorder, Table};
use crate::gpu::shaders;
use crate::gpu::shapes::GemmJob;
use crate::gpu::tensor::{DevTensor, TensorView};

verus! {

/// Elements one workgroup of the split group normalisation covers.
pub const GROUP_NORM_SEGMENT_ELEMENTS: usize = 4096;

/// The tuning switches the operations consult.
#[derive(Debug, Clone, Copy, PartialEq, Eq, Structural)]
pub struct Settings {
    /// Convolutions gather inside the product.
    pub conv_direct: bool,
    /// Convolutions stage the patch matrix with the coalesced walk.
    pub coalesced_b: bool,
    /// Single-batch transposed products drop the batch bases.
    pub transb_plain: bool,
    /// Convolutions may use the 64-row tile.
    pub bm64: bool,
    /// Convolutions may use the 96-row tile.
    pub bm96: bool,
    /// The split group normalisation may fold a pair's partials once.
    pub combine_stats: bool,
    /// Loads above which that pays.
    pub combine_work: usize,
    /// The recurrence may keep its weights in registers.
    pub lstm_regs: bool,
    /// Elements one workgroup of the split moments covers; 0 never splits.
    pub moments_segment: usize,
    /// Residual branches copy where their second product would stand.
    pub conv2_probe: bool,
}

impl Settings {
    /// The switches as their environment settings give them.
    pub open spec fn read_spec(
        conv_direct: Option<&str>,
        b_walk: Option<&str>,
        transb_plain: Option<&str>,
        conv_tile: Option<&str>,
        gn_combine: Option<&str>,
        gn_combine_work: Option<&str>,
        lstm_regs: Option<&str>,
        moments_segment: Option<&str>,
        conv2_probe: Option<&str>,
    ) -> Settings {
        Settings {
            conv_direct: conv_direct matches Some(v) && v@ == "1"@,
            coalesced_b: b_walk matches Some(v) && v@ == "coalesced"@,
            transb_plain: shaders::unless_zero(transb_plain),
            bm64: conv_tile matches Some(v) ==> v@ != "128"@,
            bm96: conv_tile matches Some(v) ==> v@ != "128"@ && v@ != "64"@,
            combine_stats: shaders::unless_zero(gn_combine),
            combine_work: shaders::number_or(gn_combine_work, 4096) as usize,
            lstm_regs: shaders::unless_zero(lstm_regs),
            moments_segment: shaders::number_or(moments_segment, 4096) as usize,
            conv2_probe: conv2_probe is Some,
        }
    }

    /// Reads the switches from `DEMUCS_CONV_DIRECT`, `DEMUCS_GEMM_B_WALK`,
    /// `DEMUCS_GEMM_TRANSB_PLAIN`, `DEMUCS_CONV_TILE`, `DEMUCS_GN_COMBINE`,
    /// `DEMUCS_GN_COMBINE_WORK`, `DEMUCS_LSTM_REGS`,
    /// `DEMUCS_BATCH_MOMENTS_SEG` and `DEMUCS_CONV2_PROBE`.
    pub fn read(
        conv_direct: Option<&str>,
        b_walk: Option<&str>,
        transb_plain: Option<&str>,
        conv_tile: Option<&str>,
        gn_combine: Option<&str>,
        gn_combine_work: Option<&str>,
        lstm_regs: Option<&str>,
        moments_segment: Option<&str>,
        conv2_probe: Option<&str>,
    ) -> (r: Settings)
        ensures
            r == Self::read_spec(
                conv_direct,
                b_walk,
                transb_plain,
                conv_tile,
                gn_combine,
                gn_combine_work,
                lstm_regs,
                moments_segment,
                conv2_probe,
            ),
    {
        Settings {
            conv_direct: shaders::conv_direct_for_convs(conv_direct),
            coalesced_b: shaders::coalesced_b_for_convs(b_walk),
            transb_plain: shaders::transb_plain_for_single_batch(transb_plain),
            bm64: shaders::bm64_for_convs(conv_tile),
            bm96: shaders::bm96_for_convs(conv_tile),
            combine_stats: shaders::group_norm_combine_stats(gn_combine),
            combine_work: shaders::group_norm_combine_work(gn_combine_work),
            lstm_regs: shaders::lstm_in_registers(lstm_regs),
            moments_segment: shaders::batch_moments_segment_elements(moments_segment),
            conv2_probe: conv2_probe.is_some(),
        }
    }
}

/// The operations of one device.
#[derive(Debug, Clone, Copy, PartialEq, Eq, Structural)]
pub struct Kernels {
    /// Whether the adapter reduces across a 32-lane subgroup.
    pub shuffle_reduction: bool,
    pub settings: Settings,
}

/// An empty binding table.
pub open spec fn no_bindings() -> Seq<BindingView> {
    Seq::empty()
}

/// The grid of `rows` row-wise workgroups.
pub open spec fn row_workgroups(rows: int) -> (u32, u32, u32) {
    (arith::row_grid_spec(rows).0, arith::row_grid_spec(rows).1, 1)
}

/// The grid of an elementwise kernel over `count` elements.
pub open spec fn over(count: int) -> (u32, u32, u32) {
    row_workgroups(arith::ceil(count, shaders::ROW_THREADS as int))
}

pub(crate) fn row_workgroups_of(rows: usize) -> (r: (u32, u32, u32))
    ensures
        r == row_workgroups(rows as int),
{
    let (x, y) = arith::row_grid(rows);
    (x, y, 1)
}

pub(crate) fn over_of(count: usize) -> (r: (u32, u32, u32))
    ensures
        r == over(count as int),
{
    row_workgroups_of(arith::ceil_div(count, shaders::ROW_THREADS))
}

/// The description of an optional operand.
pub open spec fn described(t: Option<&DevTensor>) -> Option<TensorView> {
    match t {
        Some(t) => Some(t@),
        None => None,
    }
}

/// Whether an optional operand is well formed.
pub open spec fn optional_wf(t: Option<&DevTensor>) -> bool {
    t matches Some(t) ==> t.wf()
}

// -------------------------------------------------------------------- products

/// The uniform block of a product.
pub open spec fn dims(job: GemmJob) -> BindingView {
    BindingView::Uniform {
        words: seq![
            job.m as u32,
            job.n as u32,
            job.k as u32,
            job.lda as u32,
            job.ldb as u32,
            job.ldc as u32,
            job.inner_count as u32,
            job.a_outer as u32,
            job.a_inner as u32,
            job.b_outer as u32,
            job.b_inner as u32,
            job.c_outer as u32,
            job.c_inner as u32,
            0u32,
        ],
        size: 64,
    }
}

pub(crate) fn dims_of(job: GemmJob) -> (r: Vec<u32>)
    ensures
        (BindingView::Uniform { words: r@, size: 64 }) == dims(job),
{
    let r: Vec<u32> = vec![
        job.m as u32,
        job.n as u32,
        job.k as u32,
        job.lda as u32,
        job.ldb as u32,
        job.ldc as u32,
        job.inner_count as u32,
        job.a_outer as u32,
        job.a_inner as u32,
        job.b_outer as u32,
        job.b_inner as u32,
        job.c_outer as u32,
        job.c_inner as u32,
        0,
    ];
    proof {
        if let BindingView::Uniform { words, .. } = dims(job) {
            assert(r@ =~= words);
        }
    }
    r
}

/// Operands and uniforms of a product.
pub open spec fn product_table(
    a: TensorView,
    b: TensorView,
    c: TensorView,
    job: GemmJob,
) -> Seq<BindingView> {
    no_bindings().push(recorder::whole(a)).push(recorder::whole(b)).push(recorder::whole(c)).push(
        dims(job),
    )
}

pub(crate) fn product_table_of(a: &DevTensor, b: &DevTensor, c: &DevTensor, job: GemmJob) -> (r: Table)
    requires
        a.wf(),
        b.wf(),
        c.wf(),
    ensures
        r@ == product_table(a@, b@, c@, job),
{
    Table::new().whole(a).whole(b).whole(c).block(dims_of(job), 64)
}

/// A product of which one side is empty records nothing.
pub open spec fn empty_product(job: GemmJob) -> bool {
    job.m == 0 || job.n == 0 || job.k == 0
}

pub(crate) fn empty_product_of(job: GemmJob) -> (r: bool)
    ensures
        r == empty_product(job),
{
    job.m == 0 || job.n == 0 || job.k == 0
}

/// One past the last element of `A` a job indexes.
pub open spec fn a_need(job: GemmJob) -> int {
    job.base(job.a_outer as int, job.a_inner as int, job.batches - 1) + (job.m - 1) * job.lda
        + job.k
}

/// One past the last element of `B` a job indexes: its rows run along `n` in the
/// transposed form, along `k` otherwise.
pub open spec fn b_need(job: GemmJob) -> int {
    job.base(job.b_outer as int, job.b_inner as int, job.batches - 1) + if job.transb {
        (job.n - 1) * job.ldb + job.k
    } else {
        (job.k - 1) * job.ldb + job.n
    }
}

/// One past the last element of `C` a job indexes.
pub open spec fn c_need(job: GemmJob) -> int {
    job.base(job.c_outer as int, job.c_inner as int, job.batches - 1) + (job.m - 1) * job.ldc
        + job.n
}

/// Whether what a job indexes can be counted, where it is looked at.
pub open spec fn product_fits(job: GemmJob) -> bool {
    !empty_product(job) && job.batches <= 65535 && job.inner_count > 0 ==> {
        &&& job.batches >= 1
        &&& a_need(job) <= usize::MAX
        &&& b_need(job) <= usize::MAX
        &&& c_need(job) <= usize::MAX
        &&& arith::padded(job.m as int, 128) <= usize::MAX
        &&& arith::padded(job.n as int, 128) <= usize::MAX
    }
}

/// Every element that one multiplication of one batch reads or writes lies below what the
/// job needs, when the batches do not run backwards.
pub proof fn law_product_needs_cover(job: GemmJob, batch: int, row: int, col: int, depth: int)
    requires
        job.inner_count >= 1,
        0 <= batch < job.batches,
        0 <= row < job.m,
        0 <= col < job.n,
        0 <= depth < job.k,
        job.a_outer >= job.a_inner * (job.inner_count - 1),
        job.b_outer >= job.b_inner * (job.inner_count - 1),
        job.c_outer >= job.c_inner * (job.inner_count - 1),
    ensures
        job.base(job.a_outer as int, job.a_inner as int, batch) + row * job.lda + depth < a_need(
            job,
        ),
        job.base(job.b_outer as int, job.b_inner as int, batch) + (if job.transb {
            col * job.ldb + depth
        } else {
            depth * job.ldb + col
        }) < b_need(job),
        job.base(job.c_outer as int, job.c_inner as int, batch) + row * job.ldc + col < c_need(
            job,
        ),
{
    let inner = job.inner_count as int;
    lemma_base_grows(job.a_outer as int, job.a_inner as int, inner, batch, job.batches - 1);
    lemma_base_grows(job.b_outer as int, job.b_inner as int, inner, batch, job.batches - 1);
    lemma_base_grows(job.c_outer as int, job.c_inner as int, inner, batch, job.batches - 1);
    arith::lemma_mul_le(row, job.m - 1, job.lda as int);
    arith::lemma_mul_le(row, job.m - 1, job.ldc as int);
    arith::lemma_mul_le(col, job.n - 1, job.ldb as int);
    arith::lemma_mul_le(depth, job.k - 1, job.ldb as int);
}

/// A simple product needs no more than its padded operands hold, and writes every
/// element of its result.
pub proof fn law_padded_operands_suffice(m: usize, n: usize, k: usize)
    requires
        m > 0,
        n > 0,
        k > 0,
        GemmJob::simple_fits(m, n, k),
    ensures
        ({
            let job = GemmJob::simple_spec(m, n, k);
            &&& a_need(job) <= arith::padded(m as int, shaders::BM as int) * job.lda
            &&& b_need(job) <= arith::padded(k as int, shaders::BK as int) * job.ldb
            &&& c_need(job) == m * n
        }),
{
    let job = GemmJob::simple_spec(m, n, k);
    let lda = job.lda as int;
    let ldb = job.ldb as int;
    arith::law_padding(m as int, shaders::BM as int);
    arith::law_padding(n as int, shaders::BN as int);
    arith::law_padding(k as int, shaders::BK as int);
    assert(forall|stride: int| #[trigger] job.base(stride, 0, 0) == 0) by (nonlinear_arith)
        requires
            job.inner_count == 1,
    ;
    assert(a_need(job) == (m - 1) * lda + k);
    assert(b_need(job) == (k - 1) * ldb + n);
    assert((m - 1) * lda + lda == m * lda) by (nonlinear_arith);
    assert((k - 1) * ldb + ldb == k * ldb) by (nonlinear_arith);
    assert((m - 1) * n + n == m * n) by (nonlinear_arith);
    arith::lemma_mul_le(m as int, arith::padded(m as int, shaders::BM as int), lda);
    arith::lemma_mul_le(k as int, arith::padded(k as int, shaders::BK as int), ldb);
}

proof fn lemma_base_grows(outer: int, inner: int, count: int, b: int, last: int)
    by (nonlinear_arith)
    requires
        outer >= 0,
        inner >= 0,
        count >= 1,
        0 <= b <= last,
        outer >= inner * (count - 1),
    ensures
        outer * (b / count) + inner * (b % count) <= outer * (last / count) + inner * (last
            % count),
{
    let q = b / count;
    let r = b % count;
    let lq = last / count;
    let lr = last % count;
    assert(b == count * q + r);
    assert(last == count * lq + lr);
    assert(0 <= r <= count - 1);
    assert(0 <= lr);
    if q == lq {
        assert(r <= lr);
        assert(inner * r <= inner * lr);
    } else {
        assert(q <= lq) by {
            if q > lq {
                assert(count * q >= count * (lq + 1));
                assert(count * (lq + 1) == count * lq + count);
            }
        }
        assert(q + 1 <= lq);
        assert(outer * (q + 1) <= outer * lq);
        assert(outer * (q + 1) == outer * q + outer);
        assert(inner * r <= inner * (count - 1));
        assert(0 <= inner * lr);
    }
}

/// The kernel, report label and tile of a product. A 64-wide `n` takes the 64-wide
/// tile, a small `m` with it the 64x64 one; a single batch takes the form without
/// batch bases, where there is one.
pub open spec fn product_choice(job: GemmJob, transb_plain: bool) -> (Kernel, Seq<char>, int, int) {
    let single = job.batches == 1;
    let narrow = job.n <= 64;
    let small = job.m <= 64;
    if job.transb && narrow {
        if small {
            (Kernel::GemmTransbBm64, "gemm_transb_bm64"@, 64, 64)
        } else {
            (Kernel::GemmTransbBn64, "gemm_transb_bn64"@, 128, 64)
        }
    } else if job.transb {
        if single && transb_plain {
            (Kernel::GemmTransbPlain, "gemm_transb"@, 128, 128)
        } else {
            (Kernel::GemmTransb, "gemm_transb"@, 128, 128)
        }
    } else if single {
        (Kernel::Gemm, "gemm"@, 128, 128)
    } else if narrow {
        if small {
            (Kernel::GemmBatchedBm64, "gemm_batched_bm64"@, 64, 64)
        } else {
            (Kernel::GemmBatchedBn64, "gemm_batched_bn64"@, 128, 64)
        }
    } else {
        (Kernel::GemmBatched, "gemm_batched"@, 128, 128)
    }
}

/// A smaller tile pads less.
pub(crate) proof fn lemma_narrow_tile(value: int)
    requires
        value >= 0,
    ensures
        arith::padded(value, 64) <= arith::padded(value, 128),
        arith::padded(value, 96) < value + 96,
{
    arith::law_padding(value, 128);
    arith::law_padding(value, 96);
    assert(arith::padded(value, 128) % 64 == 0) by {
        let q = arith::padded(value, 128) / 128;
        assert(arith::padded(value, 128) == 128 * q);
    }
    arith::law_padding_is_least(value, 64, arith::padded(value, 128));
}

impl Kernels {
    /// The operations of a device.
    pub fn new(shuffle_reduction: bool, settings: Settings) -> (r: Self)
        ensures
            r == (Kernels { shuffle_reduction, settings }),
    {
        Kernels { shuffle_reduction, settings }
    }

    /// The pipelines to build up front.
    pub fn pipelines(&self) -> (r: Vec<PipelineSource>)
        ensures
            Seq::new(r@.len(), |i: int| r@[i]@) == pipelines::pipeline_table(
                self.shuffle_reduction,
            ),
    {
        pipelines::pipelines(self.shuffle_reduction)
    }

    /// The product of a tile chosen by the caller, without checks.
    pub open spec fn gemm_into_tile_plan(
        self,
        s: Plan,
        a: TensorView,
        b: TensorView,
        c: TensorView,
        job: GemmJob,
        kernel: Kernel,
        tile: (usize, usize),
    ) -> Plan {
        if empty_product(job) {
            s
        } else {
            s.launch(
                if tile.0 == shaders::BM96 {
                    "gemm_bm96"@
                } else if tile.0 == shaders::BM64 {
                    "gemm_bm64"@
                } else {
                    "gemm"@
                },
                kernel,
                product_table(a, b, c, job),
                job.grid_spec(tile.0 as int, tile.1 as int),
            )
        }
    }

    /// One product with a kernel and tile chosen by the caller. The grid follows
    /// the tile, because the kernel derives its rows from its workgroup.
    pub fn gemm_into_tile(
        &self,
        rec: &mut Recorder,
        a: &DevTensor,
        b: &DevTensor,
        c: &DevTensor,
        job: GemmJob,
        kernel: Kernel,
        tile: (usize, usize),
    )
        requires
            a.wf(),
            b.wf(),
            c.wf(),
            job.grid_fits(tile.0, tile.1),
        ensures
            final(rec)@ == self.gemm_into_tile_plan(old(rec)@, a@, b@, c@, job, kernel, tile),
    {
        if empty_product_of(job) {
            return ;
        }
        let label = if tile.0 == shaders::BM96 {
            "gemm_bm96"
        } else if tile.0 == shaders::BM64 {
            "gemm_bm64"
        } else {
            "gemm"
        };
        rec.dispatch(label, kernel, product_table_of(a, b, c, job), job.grid_with(tile.0, tile.1));
    }

    pub open spec fn gemm_into_plan(
        self,
        s: Plan,
        a: TensorView,
        b: TensorView,
        c: TensorView,
        job: GemmJob,
    ) -> Plan {
        if empty_product(job) {
            s
        } else {
            let (kernel, label, bm, bn) = product_choice(job, self.settings.transb_plain);
            s.require(
                job.batches <= 65535,
                Error::Gpu(Fault::GridZ { batches: job.batches }),
            ).require(job.inner_count != 0, Error::Gpu(Fault::InnerCount)).require(
                a.len() >= a_need(job),
                operand_fault("A", a.len(), a_need(job)),
            ).require(b.len() >= b_need(job), operand_fault("B", b.len(), b_need(job))).require(
                c.len() >= c_need(job),
                operand_fault("C", c.len(), c_need(job)),
            ).launch(label, kernel, product_table(a, b, c, job), job.grid_spec(bm, bn))
        }
    }

    /// One dispatch of the product `job` describes.
    pub fn gemm_into(
        &self,
        rec: &mut Recorder,
        a: &DevTensor,
        b: &DevTensor,
        c: &DevTensor,
        job: GemmJob,
    ) -> (r: Result<(), Error>)
        requires
            a.wf(),
            b.wf(),
            c.wf(),
            product_fits(job),
        ensures
            recorder::settled(final(rec)@, r) == self.gemm_into_plan(old(rec)@, a@, b@, c@, job),
    {
        proof {
            rec.lemma_running();
        }
        if empty_product_of(job) {
            return Ok(());
        }
        if job.batches > 65535 {
            return Err(Error::Gpu(Fault::GridZ { batches: job.batches }));
        }
        if job.inner_count == 0 {
            return Err(Error::Gpu(Fault::InnerCount));
        }
        // The base of the last batch is the largest one a valid row can have.
        let last: usize = job.batches - 1;
        let last_outer: usize = last / job.inner_count;
        let last_inner: usize = last % job.inner_count;
        proof {
            arith::lemma_mul_bounds(job.a_outer as int, last_outer as int);
            arith::lemma_mul_bounds(job.a_inner as int, last_inner as int);
            arith::lemma_mul_bounds(job.m - 1, job.lda as int);
            arith::lemma_mul_bounds(job.b_outer as int, last_outer as int);
            arith::lemma_mul_bounds(job.b_inner as int, last_inner as int);
            arith::lemma_mul_bounds(job.n - 1, job.ldb as int);
            arith::lemma_mul_bounds(job.k - 1, job.ldb as int);
            arith::lemma_mul_bounds(job.c_outer as int, last_outer as int);
            arith::lemma_mul_bounds(job.c_inner as int, last_inner as int);
            arith::lemma_mul_bounds(job.m - 1, job.ldc as int);
        }
        let need_a: usize = job.a_outer * last_outer + job.a_inner * last_inner + (job.m - 1)
            * job.lda + job.k;
        let base_b: usize = job.b_outer * last_outer + job.b_inner * last_inner;
        let need_b: usize = if job.transb {
            base_b + ((job.n - 1) * job.ldb + job.k)
        } else {
            base_b + ((job.k - 1) * job.ldb + job.n)
        };
        let need_c: usize = job.c_outer * last_outer + job.c_inner * last_inner + (job.m - 1)
            * job.ldc + job.n;
        let have_a: usize = a.len();
        let have_b: usize = b.len();
        let have_c: usize = c.len();
        if have_a < need_a {
            return Err(
                Error::Shape(Fault::GemmOperand { operand: "A", have: have_a, need: need_a }),
            );
        }
        if have_b < need_b {
            return Err(
                Error::Shape(Fault::GemmOperand { operand: "B", have: have_b, need: need_b }),
            );
        }
        if have_c < need_c {
            return Err(
                Error::Shape(Fault::GemmOperand { operand: "C", have: have_c, need: need_c }),
            );
        }
        let single = job.batches == 1;
        let narrow = job.n <= 64;
        let small = job.m <= 64;
        let (kernel, label, bm, bn): (Kernel, &'static str, usize, usize) = if job.transb
            && narrow {
            if small {
                (Kernel::GemmTransbBm64, "gemm_transb_bm64", 64, 64)
            } else {
                (Kernel::GemmTransbBn64, "gemm_transb_bn64", 128, 64)
            }
        } else if job.transb {
            if single && self.settings.transb_plain {
                (Kernel::GemmTransbPlain, "gemm_transb", 128, 128)
            } else {
                (Kernel::GemmTransb, "gemm_transb", 128, 128)
            }
        } else if single {
            (Kernel::Gemm, "gemm", 128, 128)
        } else if narrow {
            if small {
                (Kernel::GemmBatchedBm64, "gemm_batched_bm64", 64, 64)
            } else {
                (Kernel::GemmBatchedBn64, "gemm_batched_bn64", 128, 64)
            }
        } else {
            (Kernel::GemmBatched, "gemm_batched", 128, 128)
        };
        proof {
            lemma_narrow_tile(job.m as int);
            lemma_narrow_tile(job.n as int);
        }
        rec.dispatch(label, kernel, product_table_of(a, b, c, job), job.grid_with(bm, bn));
        Ok(())
    }

    /// The kernel of a product with an epilogue, or why there is none.
    pub open spec fn epilogue_kernel(
        transb: bool,
        bias: bool,
        gelu: bool,
        residual: bool,
    ) -> Result<Kernel, ErrorView> {
        if transb {
            if bias && !gelu && !residual {
                Ok(Kernel::GemmTransbPlainBias)
            } else {
                Err(Error::Gpu(Fault::EpilogueTransb))
            }
        } else if bias {
            Ok(
                match (gelu, residual) {
                    (false, false) => Kernel::GemmBias,
                    (true, false) => Kernel::GemmGeluBias,
                    (false, true) => Kernel::GemmBiasResidual,
                    (true, true) => Kernel::GemmGeluBiasResidual,
                },
            )
        } else if residual {
            Ok(
                if gelu {
                    Kernel::GemmGeluResidual
                } else {
                    Kernel::GemmResidual
                },
            )
        } else {
            Err(Error::Gpu(Fault::EpiloguePlain))
        }
    }

    pub open spec fn gemm_into_epilogue_plan(
        self,
        s: Plan,
        a: TensorView,
        b: TensorView,
        c: TensorView,
        job: GemmJob,
        bias: Option<TensorView>,
        gelu: bool,
        residual: bool,
    ) -> Plan {
        if empty_product(job) {
            s
        } else {
            let single = s.require(job.batches == 1, Error::Gpu(Fault::EpilogueBatch));
            let table = product_table(a, b, c, flat_job(job));
            match Self::epilogue_kernel(job.transb, bias is Some, gelu, residual) {
                Ok(kernel) => single.launch(
                    "gemm_bias"@,
                    kernel,
                    match bias {
                        Some(bias) => table.push(recorder::whole(bias)),
                        None => table,
                    },
                    job.grid_spec(shaders::BM as int, shaders::BN as int),
                ),
                Err(e) => single.fail(e),
            }
        }
    }

    /// A single-batch product with the bias, the activation or the skip connection
    /// folded into its store: the destination becomes the activation of the biased
    /// product, and what it held is added. The bias is bound only where the kernel reads
    /// it.
    pub fn gemm_into_epilogue(
        &self,
        rec: &mut Recorder,
        a: &DevTensor,
        b: &DevTensor,
        c: &DevTensor,
        job: GemmJob,
        bias: Option<&DevTensor>,
        gelu: bool,
        residual: bool,
    ) -> (r: Result<(), Error>)
        requires
            a.wf(),
            b.wf(),
            c.wf(),
            optional_wf(bias),
            job.grid_fits(shaders::BM, shaders::BN),
        ensures
            recorder::settled(final(rec)@, r) == self.gemm_into_epilogue_plan(
                old(rec)@,
                a@,
                b@,
                c@,
                job,
                described(bias),
                gelu,
                residual,
            ),
    {
        proof {
            rec.lemma_running();
        }
        if empty_product_of(job) {
            return Ok(());
        }
        if job.batches != 1 {
            return Err(Error::Gpu(Fault::EpilogueBatch));
        }
        let kernel = match (job.transb, bias.is_some(), gelu, residual) {
            (true, true, false, false) => Kernel::GemmTransbPlainBias,
            (true, _, _, _) => {
                return Err(Error::Gpu(Fault::EpilogueTransb));
            },
            (false, true, true, true) => Kernel::GemmGeluBiasResidual,
            (false, false, true, true) => Kernel::GemmGeluResidual,
            (false, true, true, false) => Kernel::GemmGeluBias,
            (false, true, false, false) => Kernel::GemmBias,
            (false, false, _, false) => {
                return Err(Error::Gpu(Fault::EpiloguePlain));
            },
            (false, false, false, true) => Kernel::GemmResidual,
            (false, true, false, true) => Kernel::GemmBiasResidual,
        };
        let flat = GemmJob {
            inner_count: 1,
            a_outer: 0,
            a_inner: 0,
            b_outer: 0,
            b_inner: 0,
            c_outer: 0,
            c_inner: 0,
            ..job
        };
        let table = product_table_of(a, b, c, flat);
        let grid = job.grid_with(shaders::BM, shaders::BN);
        let table = match bias {
            Some(bias) => table.whole(bias),
            None => table,
        };
        rec.dispatch("gemm_bias", kernel, table, grid);
        Ok(())
    }
}

/// A job without batch strides.
pub open spec fn flat_job(job: GemmJob) -> GemmJob {
    GemmJob {
        inner_count: 1,
        a_outer: 0,
        a_inner: 0,
        b_outer: 0,
        b_inner: 0,
        c_outer: 0,
        c_inner: 0,
        ..job
    }
}

pub open spec fn operand_fault(operand: &'static str, have: nat, need: int) -> ErrorView {
    Error::Shape(Fault::GemmOperand { operand, have: have as usize, need: need as usize })
}

} // verus!
