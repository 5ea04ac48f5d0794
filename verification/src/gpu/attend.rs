//! Softmax and attention.

use vstd::prelude::*;

use crate::error::{Error, Fault};
use crate::gpu::arith;
use crate::gpu::kernels;
use crate::gpu::kernels::Kernels;
use crate::gpu::pipelines::Kernel;
use crate::gpu::recorder;
use crate::gpu::recorder::{BindingView, Plan, Recorder, Table};
use crate::gpu::shaders;
use crate::gpu::shapes::{AttentionShape, GemmJob};
use crate::gpu::tensor::{DevTensor, TensorView};

verus! {

/// Bit pattern of one.
pub const ONE_BITS: u32 = 0x3f800000;

/// Bit pattern of an eighth, the scale of 64-wide heads.
pub const EIGHTH_BITS: u32 = 0x3e000000;

/// Columns of a row the in-place kernel keeps in registers.
pub const SOFTMAX_CAPACITY: usize = 832;

impl Kernels {
    // ---------------------------------------------------------------- softmax

    pub open spec fn softmax_stats_plan(
        self,
        s: Plan,
        x: TensorView,
        stats: TensorView,
        rows: usize,
        cols: usize,
        scale: u32,
    ) -> Plan {
        s.require(self.shuffle_reduction, Error::Gpu(Fault::StatsShuffle)).require(
            stats.len() >= 2 * rows,
            Error::Shape(
                Fault::StatsLength {
                    values: (2 * rows) as usize,
                    rows,
                    len: stats.len() as usize,
                },
            ),
        ).launch(
            "softmax_stats"@,
            Kernel::SoftmaxStatsWarp,
            kernels::no_bindings().push(recorder::whole(x)).push(recorder::whole(stats)).push(
                recorder::params(rows as u32, cols as u32, scale, 0),
            ),
            kernels::row_workgroups(
                arith::ceil(rows as int, shaders::SOFTMAX_WARP_ROWS_PER_WG as int),
            ),
        )
    }

    /// `(max, 1 / sum(exp))` of every scaled row, without forming the softmax.
    /// `scale` is a bit pattern.
    pub fn softmax_stats(
        &self,
        rec: &mut Recorder,
        x: &DevTensor,
        stats: &DevTensor,
        rows: usize,
        cols: usize,
        scale: u32,
    ) -> (r: Result<(), Error>)
        requires
            x.wf(),
            stats.wf(),
            2 * rows <= usize::MAX,
        ensures
            recorder::settled(final(rec)@, r) == self.softmax_stats_plan(
                old(rec)@,
                x@,
                stats@,
                rows,
                cols,
                scale,
            ),
    {
        proof {
            rec.lemma_running();
        }
        if !self.shuffle_reduction {
            return Err(Error::Gpu(Fault::StatsShuffle));
        }
        let len: usize = stats.len();
        if len < 2 * rows {
            return Err(Error::Shape(Fault::StatsLength { values: 2 * rows, rows, len }));
        }
        let table = Table::new().whole(x).whole(stats).params(rows as u32, cols as u32, scale, 0);
        rec.dispatch(
            "softmax_stats",
            Kernel::SoftmaxStatsWarp,
            table,
            kernels::row_workgroups_of(
                arith::ceil_div(rows, shaders::SOFTMAX_WARP_ROWS_PER_WG),
            ),
        );
        Ok(())
    }

    pub open spec fn softmax_in_place_plan(
        self,
        s: Plan,
        x: TensorView,
        rows: usize,
        cols: usize,
        pitch: usize,
        scale: u32,
    ) -> Plan {
        let warp = self.shuffle_reduction && cols <= shaders::SOFTMAX_WARP_COLS && pitch
            <= shaders::SOFTMAX_WARP_COLS;
        s.require(pitch >= cols, Error::Shape(Fault::SoftmaxPitch { pitch, cols })).require(
            cols <= SOFTMAX_CAPACITY,
            Error::Shape(Fault::SoftmaxCapacity { cols }),
        ).launch(
            "softmax_in_place"@,
            if warp {
                Kernel::SoftmaxWarp
            } else {
                Kernel::SoftmaxInPlace
            },
            kernels::no_bindings().push(recorder::whole(x)).push(
                recorder::params(rows as u32, cols as u32, scale, pitch as u32),
            ),
            kernels::row_workgroups(
                arith::ceil(
                    rows as int,
                    if warp {
                        shaders::SOFTMAX_WARP_ROWS_PER_WG as int
                    } else {
                        shaders::SOFTMAX_ROWS_PER_WG as int
                    },
                ),
            ),
        )
    }

    /// Softmax of every scaled row, in place; the pitch's padding is cleared. Narrow
    /// rows take the warp kernel, where there is one.
    pub fn softmax_in_place(
        &self,
        rec: &mut Recorder,
        x: &DevTensor,
        rows: usize,
        cols: usize,
        pitch: usize,
        scale: u32,
    ) -> (r: Result<(), Error>)
        requires
            x.wf(),
        ensures
            recorder::settled(final(rec)@, r) == self.softmax_in_place_plan(
                old(rec)@,
                x@,
                rows,
                cols,
                pitch,
                scale,
            ),
    {
        proof {
            rec.lemma_running();
        }
        if pitch < cols {
            return Err(Error::Shape(Fault::SoftmaxPitch { pitch, cols }));
        }
        if cols > SOFTMAX_CAPACITY {
            return Err(Error::Shape(Fault::SoftmaxCapacity { cols }));
        }
        let warp = self.shuffle_reduction && cols <= shaders::SOFTMAX_WARP_COLS && pitch
            <= shaders::SOFTMAX_WARP_COLS;
        let kernel = if warp {
            Kernel::SoftmaxWarp
        } else {
            Kernel::SoftmaxInPlace
        };
        let per_group: usize = if warp {
            shaders::SOFTMAX_WARP_ROWS_PER_WG
        } else {
            shaders::SOFTMAX_ROWS_PER_WG
        };
        let table = Table::new().whole(x).params(rows as u32, cols as u32, scale, pitch as u32);
        rec.dispatch(
            "softmax_in_place",
            kernel,
            table,
            kernels::row_workgroups_of(arith::ceil_div(rows, per_group)),
        );
        Ok(())
    }

    pub open spec fn softmax_scaled_plan(
        self,
        s: Plan,
        x: TensorView,
        out: TensorView,
        rows: usize,
        cols: usize,
        scale: u32,
    ) -> Plan {
        s.launch(
            "softmax"@,
            if self.shuffle_reduction {
                Kernel::SoftmaxScaledWarp
            } else {
                Kernel::Softmax
            },
            kernels::no_bindings().push(recorder::whole(x)).push(recorder::whole(out)).push(
                recorder::params(rows as u32, cols as u32, scale, 0),
            ),
            kernels::row_workgroups(
                if self.shuffle_reduction {
                    arith::ceil(rows as int, shaders::SOFTMAX_WARP_ROWS_PER_WG as int)
                } else {
                    rows as int
                },
            ),
        )
    }

    /// Softmax of every scaled row.
    pub fn softmax_scaled(
        &self,
        rec: &mut Recorder,
        x: &DevTensor,
        out: &DevTensor,
        rows: usize,
        cols: usize,
        scale: u32,
    )
        requires
            x.wf(),
            out.wf(),
        ensures
            final(rec)@ == self.softmax_scaled_plan(old(rec)@, x@, out@, rows, cols, scale),
    {
        let table = Table::new().whole(x).whole(out).params(rows as u32, cols as u32, scale, 0);
        if self.shuffle_reduction {
            rec.dispatch(
                "softmax",
                Kernel::SoftmaxScaledWarp,
                table,
                kernels::row_workgroups_of(
                    arith::ceil_div(rows, shaders::SOFTMAX_WARP_ROWS_PER_WG),
                ),
            );
        } else {
            rec.dispatch("softmax", Kernel::Softmax, table, kernels::row_workgroups_of(rows));
        }
    }

    pub open spec fn softmax_plan(self, s: Plan, x: TensorView, rows: usize, cols: usize) -> Plan {
        self.softmax_scaled_plan(
            s.tensor(seq![rows, cols], "softmax.out"@),
            x,
            s.fresh(seq![rows, cols]),
            rows,
            cols,
            ONE_BITS,
        )
    }

    /// Softmax of every row, into a new tensor.
    pub fn softmax(&self, rec: &mut Recorder, x: &DevTensor, rows: usize, cols: usize) -> (r:
        Result<DevTensor, Error>)
        requires
            x.wf(),
            recorder::askable(seq![rows, cols]),
        ensures
            recorder::settled(final(rec)@, r) == self.softmax_plan(old(rec)@, x@, rows, cols),
            r matches Ok(t) ==> t@ == old(rec)@.fresh(seq![rows, cols]) && t.wf(),
    {
        proof {
            rec.lemma_running();
        }
        let shape: Vec<usize> = vec![rows, cols];
        assert(shape@ =~= seq![rows, cols]);
        let out = match rec.tensor(shape, "softmax.out") {
            Ok(out) => out,
            Err(e) => {
                return Err(e);
            },
        };
        self.softmax_scaled(rec, x, &out, rows, cols, ONE_BITS);
        Ok(out)
    }

    // -------------------------------------------------------------- attention

    /// Whether what the folded product counts can be counted.
    pub open spec fn folded_fits(job: GemmJob) -> bool {
        !kernels::empty_product(job) && job.lda != 0 && job.a_inner % job.lda == 0 ==> {
            &&& 2 * job.batches <= usize::MAX
            &&& 2 * job.batches * (job.a_inner / job.lda) <= usize::MAX
            &&& job.grid_fits(shaders::BM, 64)
        }
    }

    pub open spec fn gemm_scores_av_into_plan(
        self,
        s: Plan,
        scores: TensorView,
        stats: TensorView,
        b: TensorView,
        c: TensorView,
        job: GemmJob,
        scale: u32,
    ) -> Plan {
        let rows_per_batch = job.a_inner / job.lda;
        let need = 2 * job.batches * rows_per_batch;
        if kernels::empty_product(job) {
            s
        } else {
            s.require(
                job.lda != 0 && job.a_inner % job.lda == 0,
                Error::Shape(Fault::FoldedRows { a_inner: job.a_inner, lda: job.lda }),
            ).require(
                stats.len() >= need,
                Error::Shape(
                    Fault::FoldedStats { need: need as usize, len: stats.len() as usize },
                ),
            ).launch(
                "gemm_av_row_exp"@,
                Kernel::GemmBatchedBn64RowExp,
                kernels::product_table(scores, b, c, job).push(recorder::whole(stats)).push(
                    recorder::params(scale, rows_per_batch as u32, 0, 0),
                ),
                job.grid_spec(shaders::BM as int, 64),
            )
        }
    }

    /// The attention's second product straight off the raw scores: its staging turns
    /// a score into its probability with the row's two statistics.
    pub fn gemm_scores_av_into(
        &self,
        rec: &mut Recorder,
        scores: &DevTensor,
        stats: &DevTensor,
        b: &DevTensor,
        c: &DevTensor,
        job: GemmJob,
        scale: u32,
    ) -> (r: Result<(), Error>)
        requires
            scores.wf(),
            stats.wf(),
            b.wf(),
            c.wf(),
            Self::folded_fits(job),
        ensures
            recorder::settled(final(rec)@, r) == self.gemm_scores_av_into_plan(
                old(rec)@,
                scores@,
                stats@,
                b@,
                c@,
                job,
                scale,
            ),
    {
        proof {
            rec.lemma_running();
        }
        if kernels::empty_product_of(job) {
            return Ok(());
        }
        if job.lda == 0 || job.a_inner % job.lda != 0 {
            return Err(Error::Shape(Fault::FoldedRows { a_inner: job.a_inner, lda: job.lda }));
        }
        let rows_per_batch: usize = job.a_inner / job.lda;
        let need: usize = 2 * job.batches * rows_per_batch;
        let len: usize = stats.len();
        if len < need {
            return Err(Error::Shape(Fault::FoldedStats { need, len }));
        }
        let table = kernels::product_table_of(scores, b, c, job).whole(stats).params(
            scale,
            rows_per_batch as u32,
            0,
            0,
        );
        rec.dispatch(
            "gemm_av_row_exp",
            Kernel::GemmBatchedBn64RowExp,
            table,
            job.grid_with(shaders::BM, 64),
        );
        Ok(())
    }

    pub open spec fn flash_attention_into_plan(
        self,
        s: Plan,
        qkv: TensorView,
        out: TensorView,
        batches: usize,
        seq: usize,
        heads: usize,
        dim_head: usize,
    ) -> Plan {
        s.require(dim_head == 64, Error::Gpu(Fault::FlashWidth { dim_head })).launch(
            "flash_attention"@,
            Kernel::FlashAttention,
            kernels::no_bindings().push(recorder::whole(qkv)).push(recorder::whole(out)).push(
                BindingView::Uniform {
                    words: seq![
                        seq as u32,
                        (3 * heads * dim_head) as u32,
                        (heads * dim_head) as u32,
                        heads as u32,
                        EIGHTH_BITS,
                    ],
                    size: 32,
                },
            ),
            (
                (batches * heads) as u32,
                arith::ceil(seq as int, shaders::FLASH_TILE as int) as u32,
                1,
            ),
        )
    }

    /// The fused attention straight out of a fused tensor, one block of queries per
    /// workgroup: no score matrix exists. Compiled for 64-wide heads.
    pub fn flash_attention_into(
        &self,
        rec: &mut Recorder,
        qkv: &DevTensor,
        out: &DevTensor,
        batches: usize,
        seq: usize,
        heads: usize,
        dim_head: usize,
    ) -> (r: Result<(), Error>)
        requires
            qkv.wf(),
            out.wf(),
            dim_head == 64 ==> {
                &&& 3 * heads * dim_head <= usize::MAX
                &&& batches * heads <= usize::MAX
            },
        ensures
            recorder::settled(final(rec)@, r) == self.flash_attention_into_plan(
                old(rec)@,
                qkv@,
                out@,
                batches,
                seq,
                heads,
                dim_head,
            ),
    {
        proof {
            rec.lemma_running();
        }
        if dim_head != 64 {
            return Err(Error::Gpu(Fault::FlashWidth { dim_head }));
        }
        let words: Vec<u32> = vec![
            seq as u32,
            (3 * heads * dim_head) as u32,
            (heads * dim_head) as u32,
            heads as u32,
            EIGHTH_BITS,
        ];
        assert(words@ =~= seq![
            seq as u32,
            (3 * heads * dim_head) as u32,
            (heads * dim_head) as u32,
            heads as u32,
            EIGHTH_BITS,
        ]);
        let table = Table::new().whole(qkv).whole(out).block(words, 32);
        let blocks: usize = arith::ceil_div(seq, shaders::FLASH_TILE);
        rec.dispatch(
            "flash_attention",
            Kernel::FlashAttention,
            table,
            ((batches * heads) as u32, blocks as u32, 1),
        );
        Ok(())
    }

    /// One dispatch covers every block of queries: each query's block is launched.
    pub proof fn law_every_query_is_covered(seq: usize, query: int)
        requires
            0 <= query < seq,
        ensures
            0 <= query / (shaders::FLASH_TILE as int) < arith::ceil(
                seq as int,
                shaders::FLASH_TILE as int,
            ),
    {
    }

    /// The product of queries and keys, read transposed out of the fused tensor.
    pub open spec fn scores_job(shape: AttentionShape) -> GemmJob {
        let row = 3 * shape.inner_spec();
        let pitch = shape.pitch_spec();
        GemmJob {
            m: shape.frames,
            n: shape.frames,
            k: shape.dim_head,
            lda: row as usize,
            ldb: row as usize,
            ldc: pitch as usize,
            batches: (shape.bands * shape.heads) as usize,
            inner_count: shape.heads,
            a_outer: (shape.frames * row) as usize,
            a_inner: shape.dim_head,
            b_outer: (shape.frames * row) as usize,
            b_inner: shape.dim_head,
            c_outer: (shape.frames * pitch * (if shape.heads < 1 {
                1
            } else {
                shape.heads as int
            })) as usize,
            c_inner: (shape.frames * pitch) as usize,
            transb: true,
        }
    }

    /// The product of probabilities and values, written head-major into the rows.
    pub open spec fn values_job(shape: AttentionShape) -> GemmJob {
        let row = 3 * shape.inner_spec();
        let scores = Self::scores_job(shape);
        GemmJob {
            m: shape.frames,
            n: shape.dim_head,
            k: shape.frames,
            lda: scores.ldc,
            ldb: row as usize,
            ldc: shape.inner_spec() as usize,
            batches: scores.batches,
            inner_count: shape.heads,
            a_outer: scores.c_outer,
            a_inner: scores.c_inner,
            b_outer: (shape.frames * row) as usize,
            b_inner: shape.dim_head,
            c_outer: (shape.frames * shape.inner_spec()) as usize,
            c_inner: shape.dim_head,
            transb: false,
        }
    }

    /// Whether the sizes of an attention pass can be counted.
    pub open spec fn attention_fits(shape: AttentionShape) -> bool {
        &&& shape.fits()
        &&& shape.frames * (3 * shape.inner_spec()) <= usize::MAX
        &&& shape.frames * shape.pitch_spec() <= usize::MAX
        &&& shape.frames * shape.pitch_spec() * shape.heads <= usize::MAX
        &&& shape.frames * shape.inner_spec() <= usize::MAX
        &&& kernels::product_fits(Self::scores_job(shape))
        &&& kernels::product_fits(Self::values_job(shape))
    }

    pub open spec fn attention_plan(
        self,
        s: Plan,
        qkv: TensorView,
        scores: TensorView,
        out: TensorView,
        shape: AttentionShape,
        scale: u32,
    ) -> Plan {
        let inner = shape.inner_spec();
        let whole = qkv.len() as int;
        let rest = seq![(whole - inner) as usize];
        let tail = seq![(whole - 2 * inner) as usize];
        let all = seq![whole as usize];
        let sliced = s.require(
            scores.len() >= shape.scores_len_spec(),
            Error::Shape(
                Fault::ScoresLength {
                    have: scores.len() as usize,
                    need: shape.scores_len_spec() as usize,
                },
            ),
        ).require(
            out.len() >= shape.output_len_spec(),
            Error::Shape(
                Fault::AttentionLength {
                    have: out.len() as usize,
                    need: shape.output_len_spec() as usize,
                },
            ),
        ).slice(qkv, 0, all).slice(qkv, inner, rest).slice(qkv, 2 * inner, tail);
        let scored = self.gemm_into_plan(
            sliced,
            recorder::window(qkv, 0, all),
            recorder::window(qkv, inner, rest),
            scores,
            Self::scores_job(shape),
        );
        let weighed = self.softmax_in_place_plan(
            scored,
            scores,
            (shape.bands * shape.heads * shape.frames) as usize,
            shape.frames,
            shape.pitch_spec() as usize,
            scale,
        );
        self.gemm_into_plan(
            weighed,
            scores,
            recorder::window(qkv, 2 * inner, tail),
            out,
            Self::values_job(shape),
        )
    }

    /// `softmax(Q K^T * scale) V`, written `(bands, frames, inner)`. Queries, keys
    /// and values are windows of the fused tensor, never copies; `scores` is scratch.
    pub fn attention(
        &self,
        rec: &mut Recorder,
        qkv: &DevTensor,
        scores: &DevTensor,
        out: &DevTensor,
        shape: AttentionShape,
        scale: u32,
    ) -> (r: Result<(), Error>)
        requires
            qkv.wf(),
            scores.wf(),
            out.wf(),
            Self::attention_fits(shape),
            qkv@.len() >= 2 * shape.inner_spec(),
        ensures
            recorder::settled(final(rec)@, r) == self.attention_plan(
                old(rec)@,
                qkv@,
                scores@,
                out@,
                shape,
                scale,
            ),
    {
        proof {
            rec.lemma_running();
            arith::lemma_mul_bounds(shape.heads as int, shape.dim_head as int);
        }
        let inner: usize = shape.inner();
        let row: usize = shape.row();
        let pitch: usize = shape.scores_pitch();
        let batches: usize = shape.bands * shape.heads;
        let scores_len: usize = scores.len();
        let scores_need: usize = shape.scores_len();
        if scores_len < scores_need {
            return Err(
                Error::Shape(Fault::ScoresLength { have: scores_len, need: scores_need }),
            );
        }
        let out_len: usize = out.len();
        let out_need: usize = shape.output_len();
        if out_len < out_need {
            return Err(Error::Shape(Fault::AttentionLength { have: out_len, need: out_need }));
        }
        let whole: usize = qkv.len();
        let q = match recorder::window_of(qkv, 0, whole) {
            Ok(t) => t,
            Err(e) => {
                return Err(e);
            },
        };
        let k = match recorder::window_of(qkv, inner, whole - inner) {
            Ok(t) => t,
            Err(e) => {
                return Err(e);
            },
        };
        let v = match recorder::window_of(qkv, 2 * inner, whole - 2 * inner) {
            Ok(t) => t,
            Err(e) => {
                return Err(e);
            },
        };
        let per_batch: usize = shape.frames * pitch;
        let (scores_outer, scores_inner) = GemmJob::contiguous_batch(per_batch, shape.heads);
        let block: usize = shape.frames * row;
        let scores_job = GemmJob {
            m: shape.frames,
            n: shape.frames,
            k: shape.dim_head,
            lda: row,
            ldb: row,
            ldc: pitch,
            batches,
            inner_count: shape.heads,
            a_outer: block,
            a_inner: shape.dim_head,
            b_outer: block,
            b_inner: shape.dim_head,
            c_outer: scores_outer,
            c_inner: scores_inner,
            transb: true,
        };
        assert(scores_job == Self::scores_job(shape));
        match self.gemm_into(rec, &q, &k, scores, scores_job) {
            Ok(()) => {},
            Err(e) => {
                return Err(e);
            },
        }
        match self.softmax_in_place(rec, scores, batches * shape.frames, shape.frames, pitch, scale) {
            Ok(()) => {},
            Err(e) => {
                return Err(e);
            },
        }
        let values_job = GemmJob {
            m: shape.frames,
            n: shape.dim_head,
            k: shape.frames,
            lda: pitch,
            ldb: row,
            ldc: inner,
            batches,
            inner_count: shape.heads,
            a_outer: scores_outer,
            a_inner: scores_inner,
            b_outer: block,
            b_inner: shape.dim_head,
            c_outer: shape.frames * inner,
            c_inner: shape.dim_head,
            transb: false,
        };
        assert(values_job == Self::values_job(shape));
        self.gemm_into(rec, scores, &v, out, values_job)
    }
}

} // verus!
