//! Convolutions, as gathers around a product.

use vstd::prelude::*;

use crate::error::{Error, ErrorView, Fault};
use crate::gpu::arith;
use crate::gpu::kernels;
use crate::gpu::kernels::Kernels;
use crate::gpu::pipelines::Kernel;
use crate::gpu::recorder;
use crate::gpu::recorder::{Plan, Recorder, Table};
use crate::gpu::shaders;
use crate::gpu::shapes;
use crate::gpu::shapes::{GemmJob, Im2ColShape};
use crate::gpu::tensor;
use crate::gpu::tensor::{DevTensor, TensorView};

verus! {

/// Workgroups one grid axis takes.
pub const GRID_CAP: usize = 65535;

pub open spec fn conv_packing(name: &'static str, value: usize) -> ErrorView {
    Error::Shape(Fault::ConvPacking { name, value })
}

pub open spec fn im2col_grid(axis: &'static str, value: int) -> ErrorView {
    Error::Shape(Fault::Im2ColGrid { value: value as usize, axis })
}

fn packing_checked(name: &'static str, value: usize) -> (r: Result<(), Error>)
    ensures
        match r {
            Ok(()) => value <= u16::MAX,
            Err(e) => value > u16::MAX && e@ == conv_packing(name, value),
        },
{
    if value > 65535 {
        Err(Error::Shape(Fault::ConvPacking { name, value }))
    } else {
        Ok(())
    }
}

fn axis_checked(axis: &'static str, value: usize) -> (r: Result<(), Error>)
    ensures
        match r {
            Ok(()) => value <= GRID_CAP,
            Err(e) => value > GRID_CAP && e@ == im2col_grid(axis, value as int),
        },
{
    if value > GRID_CAP {
        Err(Error::Shape(Fault::Im2ColGrid { value, axis }))
    } else {
        Ok(())
    }
}

impl Im2ColShape {
    /// Elements of the input.
    pub open spec fn input_len(self) -> int {
        self.batch * self.in_channels * self.h * self.w
    }

    /// Whether the input can be counted.
    pub open spec fn input_fits(self) -> bool {
        &&& self.batch * self.in_channels <= usize::MAX
        &&& self.batch * self.in_channels * self.h <= usize::MAX
        &&& self.input_len() <= usize::MAX
    }

    /// Rows of the patch matrix as the product reads it.
    pub open spec fn k_pad(self) -> int {
        arith::padded(self.k_spec(), shaders::BK as int)
    }

    /// Width of the patch matrix as the product reads it.
    pub open spec fn pitch(self) -> int {
        arith::padded(self.positions_spec(), shaders::BN as int)
    }

    /// Elements of the patch matrix as the product reads it.
    pub open spec fn patch_len(self) -> int {
        self.batch * self.k_pad() * self.pitch()
    }

    /// Whether the padded patch matrix can be counted.
    pub open spec fn patches_fit(self) -> bool {
        &&& self.fits()
        &&& self.k_pad() <= usize::MAX
        &&& self.pitch() <= usize::MAX
        &&& self.batch * self.k_pad() <= usize::MAX
        &&& self.patch_len() <= usize::MAX
    }
}

/// Every product a convolution can make can be counted.
pub open spec fn conv_fits(shape: Im2ColShape, out_channels: usize) -> bool {
    let rows = arith::padded(out_channels as int, shaders::BM as int);
    &&& shape.patches_fit()
    &&& shape.k_pad() * shape.pitch() <= usize::MAX
    &&& rows <= usize::MAX
    &&& rows * shape.k_pad() <= usize::MAX
    &&& out_channels * shape.positions_spec() <= usize::MAX
    &&& shape.batch * out_channels <= usize::MAX
    &&& shape.batch * out_channels * shape.positions_spec() <= usize::MAX
    &&& shape.in_channels * shape.h <= usize::MAX
    &&& shape.in_channels * shape.h * shape.w <= usize::MAX
}

/// The product of a convolution: the weights times each batch's patches.
pub open spec fn conv_job(shape: Im2ColShape, out_channels: usize) -> GemmJob {
    GemmJob {
        m: out_channels,
        n: shape.positions_spec() as usize,
        k: shape.k_spec() as usize,
        lda: shape.k_pad() as usize,
        ldb: shape.pitch() as usize,
        ldc: shape.positions_spec() as usize,
        batches: shape.batch,
        inner_count: 1,
        a_outer: 0,
        a_inner: 0,
        b_outer: (shape.k_pad() * shape.pitch()) as usize,
        b_inner: 0,
        c_outer: (out_channels * shape.positions_spec()) as usize,
        c_inner: 0,
        transb: false,
    }
}

/// The product of a non-empty convolution can be counted.
pub proof fn lemma_conv_job_fits(shape: Im2ColShape, out_channels: usize)
    requires
        conv_fits(shape, out_channels),
        shape.batch >= 1,
    ensures
        kernels::product_fits(conv_job(shape, out_channels)),
{
    let job = conv_job(shape, out_channels);
    let k = shape.k_spec();
    let n = shape.positions_spec();
    lemma_k_positive(shape);
    arith::law_padding(k, 16);
    arith::law_padding(n, 128);
    arith::law_padding(out_channels as int, 128);
    if job.m > 0 && job.n > 0 && job.k > 0 {
        let kp = shape.k_pad();
        let pitch = shape.pitch();
        let ocp = arith::padded(out_channels as int, 128);
        let b = shape.batch as int;
        let last = b - 1;
        assert(last / 1 == last && last % 1 == 0);
        assert((job.m - 1) * kp + k <= ocp * kp) by (nonlinear_arith)
            requires
                job.m <= ocp,
                0 <= k <= kp,
        {
        }
        assert((kp * pitch) * last + (k - 1) * pitch + n <= b * kp * pitch) by (nonlinear_arith)
            requires
                last == b - 1,
                0 <= k <= kp,
                0 <= n <= pitch,
        {
            assert(b * kp * pitch == (kp * pitch) * last + kp * pitch);
            assert(k * pitch <= kp * pitch);
            assert((k - 1) * pitch == k * pitch - pitch);
        }
        assert((job.m * n) * last + (job.m - 1) * n + n == b * job.m * n) by (nonlinear_arith)
            requires
                last == b - 1,
        {
            assert(b * job.m * n == (job.m * n) * last + job.m * n);
            assert((job.m - 1) * n == job.m * n - n);
        }
    }
}

/// Sizes of a convolution are not negative.
pub proof fn lemma_k_positive(shape: Im2ColShape)
    requires
        shape.fits(),
    ensures
        shape.k_spec() >= 0,
        shape.out_h() >= 1,
        shape.out_w() >= 1,
        shape.positions_spec() >= 1,
{
    arith::lemma_mul_bounds(shape.in_channels as int, shape.kernel.0 as int);
    arith::lemma_mul_bounds(shape.in_channels * shape.kernel.0, shape.kernel.1 as int);
    lemma_steps(shape.h + 2 * shape.pad.0 - shape.kernel.0, shape.stride.0 as int);
    lemma_steps(shape.w + 2 * shape.pad.1 - shape.kernel.1, shape.stride.1 as int);
    arith::lemma_mul_bounds(shape.out_h(), shape.out_w());
}

proof fn lemma_steps(a: int, b: int)
    by (nonlinear_arith)
    requires
        a >= 0,
        b > 0,
    ensures
        a / b >= 0,
{
}

/// A run of rows lies where the rows before it end.
proof fn lemma_rows(row: int, span: int, a: int, b: int)
    by (nonlinear_arith)
    requires
        row >= 0,
        span >= 0,
        a >= 0,
        b >= 0,
    ensures
        0 <= row * a <= (row + span) * a,
        0 <= span * a <= (row + span) * a,
        0 <= row * a * b,
        0 <= span * a * b,
        row * a * b + span * a * b == (row + span) * a * b,
{
}

/// Where the gather reads the element of a patch, in the unpadded image; nothing
/// where it falls into the padding.
pub open spec fn gathered(
    shape: Im2ColShape,
    batch: int,
    channel: int,
    tap: (int, int),
    place: (int, int),
) -> Option<int> {
    let y = place.0 * shape.stride.0 + tap.0 - shape.pad.0;
    let x = place.1 * shape.stride.1 + tap.1 - shape.pad.1;
    if 0 <= y < shape.h && 0 <= x < shape.w {
        Some(((batch * shape.in_channels + channel) * shape.h + y) * shape.w + x)
    } else {
        None
    }
}

/// A gather never reads outside the input it was checked against.
pub proof fn law_gather_reads_inside(
    shape: Im2ColShape,
    batch: int,
    channel: int,
    tap: (int, int),
    place: (int, int),
)
    requires
        0 <= batch < shape.batch,
        0 <= channel < shape.in_channels,
    ensures
        gathered(shape, batch, channel, tap, place) matches Some(i) ==> 0 <= i < shape.input_len(),
{
    let y = place.0 * shape.stride.0 + tap.0 - shape.pad.0;
    let x = place.1 * shape.stride.1 + tap.1 - shape.pad.1;
    if 0 <= y < shape.h && 0 <= x < shape.w {
        shapes::lemma_inside(batch, shape.batch as int, channel, shape.in_channels as int);
        shapes::lemma_inside(
            batch * shape.in_channels + channel,
            shape.batch * shape.in_channels,
            y,
            shape.h as int,
        );
        shapes::lemma_inside(
            (batch * shape.in_channels + channel) * shape.h + y,
            shape.batch * shape.in_channels * shape.h,
            x,
            shape.w as int,
        );
    }
}

impl Kernels {
    // ----------------------------------------------------------------- gather

    pub open spec fn im2col_into_plan(
        self,
        s: Plan,
        x: TensorView,
        out: TensorView,
        shape: Im2ColShape,
        pitch: usize,
        rows: usize,
    ) -> Plan {
        let needed = shape.batch * rows * pitch;
        let gx = arith::ceil(shape.out_w(), shaders::ROW_THREADS as int);
        let gy = rows * shape.batch;
        s.require(
            pitch >= shape.positions_spec(),
            Error::Shape(
                Fault::Im2ColPitch { pitch, positions: shape.positions_spec() as usize },
            ),
        ).require(pitch <= u32::MAX, Error::Shape(Fault::Im2ColWord { pitch })).require(
            rows >= shape.k_spec(),
            Error::Shape(Fault::Im2ColRows { rows, k: shape.k_spec() as usize }),
        ).require(
            x.len() >= shape.input_len(),
            Error::Shape(
                Fault::Im2ColInput { need: shape.input_len() as usize, len: x.len() as usize },
            ),
        ).require(
            out.len() >= needed,
            Error::Shape(
                Fault::Im2ColTarget { need: needed as usize, pitch, len: out.len() as usize },
            ),
        ).require(gx <= GRID_CAP, im2col_grid("x", gx)).require(
            gy <= GRID_CAP,
            im2col_grid("y", gy),
        ).require(shape.out_h() <= GRID_CAP, im2col_grid("z", shape.out_h())).launch(
            "im2col"@,
            Kernel::Im2col,
            kernels::no_bindings().push(recorder::whole(x)).push(recorder::whole(out)).push(
                recorder::params(
                    shape.in_channels as u32,
                    shape.kernel.0 as u32,
                    shape.kernel.1 as u32,
                    shape.h as u32,
                ),
            ).push(
                recorder::params(
                    shape.w as u32,
                    shape.out_h() as u32,
                    shape.out_w() as u32,
                    shape.batch as u32,
                ),
            ).push(
                recorder::params(
                    shape.stride.0 as u32,
                    shape.stride.1 as u32,
                    shape.pad.0 as u32,
                    shape.pad.1 as u32,
                ),
            ).push(
                recorder::params(
                    pitch as u32,
                    rows as u32,
                    (arith::at_least_one(gx) * shaders::ROW_THREADS) as u32,
                    0,
                ),
            ),
            (arith::at_least_one(gx) as u32, arith::at_least_one(gy) as u32, arith::at_least_one(shape.out_h()) as u32),
        )
    }

    /// Gathers patches: `rows` rows of `pitch` per batch. A thread walks its columns
    /// in steps of the whole x grid, which the last block of parameters tells it. The
    /// margins are never written.
    pub fn im2col_into(
        &self,
        rec: &mut Recorder,
        x: &DevTensor,
        out: &DevTensor,
        shape: Im2ColShape,
        pitch: usize,
        rows: usize,
    ) -> (r: Result<(), Error>)
        requires
            x.wf(),
            out.wf(),
            shape.fits(),
            shape.input_fits(),
            shape.batch * rows <= usize::MAX,
            shape.batch * rows * pitch <= usize::MAX,
        ensures
            recorder::settled(final(rec)@, r) == self.im2col_into_plan(
                old(rec)@,
                x@,
                out@,
                shape,
                pitch,
                rows,
            ),
    {
        proof {
            rec.lemma_running();
            assert(rows * shape.batch == shape.batch * rows) by (nonlinear_arith);
        }
        let (out_h, out_w) = shape.out_hw();
        let input_len: usize = shape.batch * shape.in_channels * shape.h * shape.w;
        let positions: usize = shape.positions();
        if pitch < positions {
            return Err(Error::Shape(Fault::Im2ColPitch { pitch, positions }));
        }
        if pitch as u64 > u32::MAX as u64 {
            return Err(Error::Shape(Fault::Im2ColWord { pitch }));
        }
        let k: usize = shape.k();
        if rows < k {
            return Err(Error::Shape(Fault::Im2ColRows { rows, k }));
        }
        let x_len: usize = x.len();
        if x_len < input_len {
            return Err(Error::Shape(Fault::Im2ColInput { need: input_len, len: x_len }));
        }
        let needed: usize = shape.pitched_len_with(pitch, rows);
        let out_len: usize = out.len();
        if out_len < needed {
            return Err(Error::Shape(Fault::Im2ColTarget { need: needed, pitch, len: out_len }));
        }
        let gx: usize = arith::ceil_div(out_w, shaders::ROW_THREADS);
        let gy: usize = rows * shape.batch;
        match axis_checked("x", gx) {
            Ok(()) => {},
            Err(e) => {
                return Err(e);
            },
        }
        match axis_checked("y", gy) {
            Ok(()) => {},
            Err(e) => {
                return Err(e);
            },
        }
        match axis_checked("z", out_h) {
            Ok(()) => {},
            Err(e) => {
                return Err(e);
            },
        }
        let blocks: usize = arith::at_least_one_of(gx);
        let table = Table::new().whole(x).whole(out).params(
            shape.in_channels as u32,
            shape.kernel.0 as u32,
            shape.kernel.1 as u32,
            shape.h as u32,
        ).params(shape.w as u32, out_h as u32, out_w as u32, shape.batch as u32).params(
            shape.stride.0 as u32,
            shape.stride.1 as u32,
            shape.pad.0 as u32,
            shape.pad.1 as u32,
        ).params(pitch as u32, rows as u32, (blocks * shaders::ROW_THREADS) as u32, 0);
        rec.dispatch(
            "im2col",
            Kernel::Im2col,
            table,
            (blocks as u32, arith::at_least_one_of(gy) as u32, arith::at_least_one_of(out_h) as u32),
        );
        Ok(())
    }

    pub open spec fn conv2d_gather_into_plan(
        self,
        s: Plan,
        x: TensorView,
        patches: TensorView,
        shape: Im2ColShape,
    ) -> Plan {
        self.im2col_into_plan(
            s.require(
                patches.len() >= shape.patch_len(),
                Error::Shape(
                    Fault::ConvScratch {
                        need: shape.patch_len() as usize,
                        batch: shape.batch,
                        k: shape.k_pad() as usize,
                        pitch: shape.pitch() as usize,
                        len: patches.len() as usize,
                    },
                ),
            ),
            x,
            patches,
            shape,
            shape.pitch() as usize,
            shape.k_pad() as usize,
        )
    }

    /// The gather half of [`Kernels::conv2d_into`]. The scratch is not cleared: its
    /// margins only meet the weights' own zero padding or results nobody stores.
    pub fn conv2d_gather_into(
        &self,
        rec: &mut Recorder,
        x: &DevTensor,
        patches: &DevTensor,
        shape: Im2ColShape,
    ) -> (r: Result<(), Error>)
        requires
            x.wf(),
            patches.wf(),
            shape.patches_fit(),
            shape.input_fits(),
        ensures
            recorder::settled(final(rec)@, r) == self.conv2d_gather_into_plan(
                old(rec)@,
                x@,
                patches@,
                shape,
            ),
    {
        proof {
            rec.lemma_running();
        }
        let k_pad: usize = arith::pad_ceil(shape.k(), shaders::BK);
        let pitch: usize = arith::pad_ceil(shape.positions(), shaders::BN);
        let need: usize = shape.pitched_len_with(pitch, k_pad);
        let len: usize = patches.len();
        if len < need {
            return Err(
                Error::Shape(
                    Fault::ConvScratch { need, batch: shape.batch, k: k_pad, pitch, len },
                ),
            );
        }
        self.im2col_into(rec, x, patches, shape, pitch, k_pad)
    }

    pub open spec fn conv2d_gather_rows_into_plan(
        self,
        s: Plan,
        x: TensorView,
        patches: TensorView,
        shape: Im2ColShape,
        row: usize,
        pitch: usize,
    ) -> Plan {
        let slab = seq![shape.batch, shape.in_channels, shape.w];
        let start = row * shape.in_channels * shape.w;
        let block = (shape.batch * shape.k_pad() * pitch) as usize;
        let place = row * shape.k_pad() * pitch;
        self.conv2d_gather_into_plan(
            s.slice(x, start, slab).slice(patches, place, seq![block]),
            recorder::window(x, start, slab),
            recorder::window(patches, place, seq![block]),
            shape,
        )
    }

    /// Whether the blocks of rows `row ..` can be counted.
    pub open spec fn gather_rows_fit(shape: Im2ColShape, row: usize, pitch: usize) -> bool {
        let last = row + shape.batch;
        &&& shape.patches_fit()
        &&& shape.input_fits()
        &&& last * shape.in_channels <= usize::MAX
        &&& last * shape.in_channels * shape.w <= usize::MAX
        &&& last * shape.k_pad() <= usize::MAX
        &&& last * shape.k_pad() * pitch <= usize::MAX
    }

    /// Gathers the rows `row .. row + shape.batch` of a `(rows, channels, time)`
    /// tensor into their blocks of a patch matrix of `pitch`-wide rows.
    pub fn conv2d_gather_rows_into(
        &self,
        rec: &mut Recorder,
        x: &DevTensor,
        patches: &DevTensor,
        shape: Im2ColShape,
        row: usize,
        pitch: usize,
    ) -> (r: Result<(), Error>)
        requires
            x.wf(),
            patches.wf(),
            Self::gather_rows_fit(shape, row, pitch),
        ensures
            recorder::settled(final(rec)@, r) == self.conv2d_gather_rows_into_plan(
                old(rec)@,
                x@,
                patches@,
                shape,
                row,
                pitch,
            ),
    {
        let k_pad: usize = arith::pad_ceil(shape.k(), shaders::BK);
        let slab: Vec<usize> = vec![shape.batch, shape.in_channels, shape.w];
        proof {
            rec.lemma_running();
            assert(slab@ =~= seq![shape.batch, shape.in_channels, shape.w]);
            tensor::lemma_axes_3(slab@);
            lemma_rows(row as int, shape.batch as int, shape.in_channels as int, shape.w as int);
            lemma_rows(row as int, shape.batch as int, k_pad as int, pitch as int);
        }
        let batch_x = match x.slice(row * shape.in_channels * shape.w, slab) {
            Ok(t) => t,
            Err(e) => {
                return Err(e);
            },
        };
        let block: usize = shape.batch * k_pad * pitch;
        let batch_patches = match recorder::window_of(patches, row * k_pad * pitch, block) {
            Ok(t) => t,
            Err(e) => {
                return Err(e);
            },
        };
        self.conv2d_gather_into(rec, &batch_x, &batch_patches, shape)
    }

    // ---------------------------------------------------------------- product

    /// What the direct form cannot pack stops it.
    pub open spec fn conv_packable(s: Plan, shape: Im2ColShape) -> Plan {
        s.require(
            shape.in_channels <= u16::MAX,
            conv_packing("in_channels", shape.in_channels),
        ).require(shape.kernel.0 <= u16::MAX, conv_packing("kh", shape.kernel.0)).require(
            shape.kernel.1 <= u16::MAX,
            conv_packing("kw", shape.kernel.1),
        ).require(shape.stride.1 <= u16::MAX, conv_packing("stride_w", shape.stride.1)).require(
            shape.stride.0 <= u16::MAX,
            conv_packing("stride_h", shape.stride.0),
        ).require(shape.pad.1 <= u16::MAX, conv_packing("pad_w", shape.pad.1)).require(
            shape.pad.0 <= u16::MAX,
            conv_packing("pad_h", shape.pad.0),
        ).require(shape.h <= u16::MAX, conv_packing("h", shape.h)).require(
            shape.w <= u16::MAX,
            conv_packing("w", shape.w),
        )
    }

    fn conv_packable_checked(rec: &Recorder, shape: Im2ColShape) -> (r: Result<(), Error>)
        ensures
            recorder::settled(rec@, r) == Self::conv_packable(rec@, shape),
    {
        proof {
            rec.lemma_running();
        }
        match packing_checked("in_channels", shape.in_channels) {
            Ok(()) => {},
            Err(e) => {
                return Err(e);
            },
        }
        match packing_checked("kh", shape.kernel.0) {
            Ok(()) => {},
            Err(e) => {
                return Err(e);
            },
        }
        match packing_checked("kw", shape.kernel.1) {
            Ok(()) => {},
            Err(e) => {
                return Err(e);
            },
        }
        match packing_checked("stride_w", shape.stride.1) {
            Ok(()) => {},
            Err(e) => {
                return Err(e);
            },
        }
        match packing_checked("stride_h", shape.stride.0) {
            Ok(()) => {},
            Err(e) => {
                return Err(e);
            },
        }
        match packing_checked("pad_w", shape.pad.1) {
            Ok(()) => {},
            Err(e) => {
                return Err(e);
            },
        }
        match packing_checked("pad_h", shape.pad.0) {
            Ok(()) => {},
            Err(e) => {
                return Err(e);
            },
        }
        match packing_checked("h", shape.h) {
            Ok(()) => {},
            Err(e) => {
                return Err(e);
            },
        }
        packing_checked("w", shape.w)
    }

    pub open spec fn gemm_conv_into_plan(
        self,
        s: Plan,
        weight: TensorView,
        x: TensorView,
        c: TensorView,
        job: GemmJob,
        shape: Im2ColShape,
        batched: bool,
    ) -> Plan {
        let per_batch_in = (shape.in_channels * shape.h * shape.w) as usize;
        let per_batch_out = (job.m * job.n) as usize;
        let packed = Self::conv_packable(s, shape);
        let cd = recorder::params(
            shape.out_w() as u32,
            shape.out_h() as u32,
            shape.w as u32,
            shape.h as u32,
        );
        let ce = recorder::params(
            shapes::packed(shape.stride.1, shape.stride.0),
            shapes::packed(shape.pad.1, shape.pad.0),
            shapes::packed(shape.kernel.0, shape.kernel.1),
            shape.in_channels as u32,
        );
        let grid = job.grid_spec(shaders::BM64 as int, shaders::BN as int);
        if batched {
            packed.launch(
                "gemm_conv_direct_batched"@,
                Kernel::GemmConvDirectBatched,
                kernels::product_table(
                    weight,
                    x,
                    c,
                    GemmJob { b_outer: per_batch_in, ..job },
                ).push(cd).push(ce),
                grid,
            )
        } else {
            packed.slice(x, 0, seq![per_batch_in]).slice(c, 0, seq![per_batch_out]).launch(
                "gemm_conv_direct"@,
                Kernel::GemmConvDirect,
                kernels::product_table(
                    weight,
                    recorder::window(x, 0, seq![per_batch_in]),
                    recorder::window(c, 0, seq![per_batch_out]),
                    job,
                ).push(cd).push(ce),
                grid,
            )
        }
    }

    /// One convolution with the gather folded into the product's staging. The input
    /// itself stands for the patch matrix, so a batch's stride is the input's own.
    fn gemm_conv_into(
        &self,
        rec: &mut Recorder,
        weight: &DevTensor,
        x: &DevTensor,
        c: &DevTensor,
        job: GemmJob,
        shape: Im2ColShape,
        batched: bool,
    ) -> (r: Result<(), Error>)
        requires
            weight.wf(),
            x.wf(),
            c.wf(),
            shape.fits(),
            shape.in_channels * shape.h <= usize::MAX,
            shape.in_channels * shape.h * shape.w <= usize::MAX,
            job.m * job.n <= usize::MAX,
            job.grid_fits(shaders::BM64, shaders::BN),
        ensures
            recorder::settled(final(rec)@, r) == self.gemm_conv_into_plan(
                old(rec)@,
                weight@,
                x@,
                c@,
                job,
                shape,
                batched,
            ),
    {
        proof {
            rec.lemma_running();
        }
        let (out_h, out_w) = shape.out_hw();
        match Self::conv_packable_checked(rec, shape) {
            Ok(()) => {},
            Err(e) => {
                return Err(e);
            },
        }
        let per_batch_in: usize = shape.in_channels * shape.h * shape.w;
        let per_batch_out: usize = job.m * job.n;
        let strides: u32 = shapes::pack(shape.stride.1, shape.stride.0);
        let pads: u32 = shapes::pack(shape.pad.1, shape.pad.0);
        let taps: u32 = shapes::pack(shape.kernel.0, shape.kernel.1);
        let grid = job.grid_with(shaders::BM64, shaders::BN);
        if batched {
            let mut strided = job;
            strided.b_outer = per_batch_in;
            let table = kernels::product_table_of(weight, x, c, strided).params(
                out_w as u32,
                out_h as u32,
                shape.w as u32,
                shape.h as u32,
            ).params(strides, pads, taps, shape.in_channels as u32);
            rec.dispatch(
                "gemm_conv_direct_batched",
                Kernel::GemmConvDirectBatched,
                table,
                grid,
            );
            return Ok(());
        }
        let batch_x = match recorder::window_of(x, 0, per_batch_in) {
            Ok(t) => t,
            Err(e) => {
                return Err(e);
            },
        };
        let batch_c = match recorder::window_of(c, 0, per_batch_out) {
            Ok(t) => t,
            Err(e) => {
                return Err(e);
            },
        };
        let table = kernels::product_table_of(weight, &batch_x, &batch_c, job).params(
            out_w as u32,
            out_h as u32,
            shape.w as u32,
            shape.h as u32,
        ).params(strides, pads, taps, shape.in_channels as u32);
        rec.dispatch("gemm_conv_direct", Kernel::GemmConvDirect, table, grid);
        Ok(())
    }

    /// Whether a convolution folds its gather into the product: every tile must lie
    /// in one output row.
    pub open spec fn conv_is_direct(self, shape: Im2ColShape) -> bool {
        self.settings.conv_direct && shape.out_w() % shaders::BN as int == 0
    }

    /// Whether a convolution takes the general product.
    pub open spec fn conv_is_general(self, shape: Im2ColShape, out_channels: usize) -> bool {
        &&& !self.conv_is_direct(shape)
        &&& !(out_channels <= 64 && self.settings.bm64)
        &&& !(out_channels <= 192 && self.settings.bm96)
    }

    /// Adds a convolution's bias, where it has one, over the whole output.
    pub open spec fn conv_bias_plan(
        self,
        s: Plan,
        out: TensorView,
        bias: Option<TensorView>,
        shape: Im2ColShape,
        out_channels: usize,
    ) -> Plan {
        match bias {
            Some(bias) => self.add_row_bias_in_place_plan(
                s,
                out,
                bias,
                (shape.batch * out_channels) as usize,
                shape.positions_spec() as usize,
                out_channels,
            ),
            None => s,
        }
    }

    pub open spec fn conv2d_gemm_into_plan(
        self,
        s: Plan,
        weight: TensorView,
        x: TensorView,
        patches: TensorView,
        out: TensorView,
        shape: Im2ColShape,
        out_channels: usize,
        bias: Option<TensorView>,
    ) -> Plan {
        let weight_len = arith::padded(out_channels as int, shaders::BM as int) * shape.k_pad();
        let wanted = shape.batch * out_channels * shape.positions_spec();
        let job = conv_job(shape, out_channels);
        let checked = s.require(
            weight.len() >= weight_len,
            Error::Shape(
                Fault::ConvWeight { need: weight_len as usize, len: weight.len() as usize },
            ),
        ).require(
            out.len() >= wanted,
            Error::Shape(Fault::ConvTarget { need: wanted as usize, len: out.len() as usize }),
        );
        self.conv_bias_plan(
            if self.conv_is_direct(shape) {
                self.gemm_conv_into_plan(checked, weight, x, out, job, shape, shape.batch > 1)
            } else if out_channels <= 64 && self.settings.bm64 {
                self.gemm_into_tile_plan(
                    checked,
                    weight,
                    patches,
                    out,
                    job,
                    if self.settings.coalesced_b {
                        Kernel::GemmBatchedBm64Bn128Coalesced
                    } else {
                        Kernel::GemmBatchedBm64Bn128
                    },
                    (shaders::BM64, shaders::BN),
                )
            } else if out_channels <= 192 && self.settings.bm96 {
                self.gemm_into_tile_plan(
                    checked,
                    weight,
                    patches,
                    out,
                    job,
                    Kernel::GemmBatchedBm96Bn128,
                    (shaders::BM96, shaders::BN),
                )
            } else {
                self.gemm_into_plan(checked, weight, patches, out, job)
            },
            out,
            bias,
            shape,
            out_channels,
        )
    }

    /// The product half of [`Kernels::conv2d_into`]: one batched launch over every
    /// batch's patches, then one bias pass. `patches` and `out` are bound whole, so
    /// no batch has to start on a bindable offset.
    pub fn conv2d_gemm_into(
        &self,
        rec: &mut Recorder,
        weight: &DevTensor,
        x: &DevTensor,
        patches: &DevTensor,
        out: &DevTensor,
        shape: Im2ColShape,
        out_channels: usize,
        bias: Option<&DevTensor>,
    ) -> (r: Result<(), Error>)
        requires
            weight.wf(),
            x.wf(),
            patches.wf(),
            out.wf(),
            kernels::optional_wf(bias),
            conv_fits(shape, out_channels),
            self.conv_is_general(shape, out_channels) ==> shape.batch >= 1,
        ensures
            recorder::settled(final(rec)@, r) == self.conv2d_gemm_into_plan(
                old(rec)@,
                weight@,
                x@,
                patches@,
                out@,
                shape,
                out_channels,
                kernels::described(bias),
            ),
    {
        proof {
            rec.lemma_running();
            lemma_k_positive(shape);
            if shape.batch >= 1 {
                lemma_conv_job_fits(shape, out_channels);
            }
            kernels::lemma_narrow_tile(out_channels as int);
        }
        let positions: usize = shape.positions();
        let k: usize = shape.k();
        let k_pad: usize = arith::pad_ceil(k, shaders::BK);
        let pitch: usize = arith::pad_ceil(positions, shaders::BN);
        let weight_len: usize = arith::pad_ceil(out_channels, shaders::BM) * k_pad;
        let have: usize = weight.len();
        if have < weight_len {
            return Err(Error::Shape(Fault::ConvWeight { need: weight_len, len: have }));
        }
        let wanted: usize = shape.batch * out_channels * positions;
        let out_len: usize = out.len();
        if out_len < wanted {
            return Err(Error::Shape(Fault::ConvTarget { need: wanted, len: out_len }));
        }
        let job = GemmJob {
            m: out_channels,
            n: positions,
            k,
            lda: k_pad,
            ldb: pitch,
            ldc: positions,
            batches: shape.batch,
            inner_count: 1,
            a_outer: 0,
            a_inner: 0,
            b_outer: k_pad * pitch,
            b_inner: 0,
            c_outer: out_channels * positions,
            c_inner: 0,
            transb: false,
        };
        assert(job == conv_job(shape, out_channels));
        let (_, out_w) = shape.out_hw();
        if self.settings.conv_direct && out_w % shaders::BN == 0 {
            match self.gemm_conv_into(rec, weight, x, out, job, shape, shape.batch > 1) {
                Ok(()) => {},
                Err(e) => {
                    return Err(e);
                },
            }
        } else if out_channels <= 64 && self.settings.bm64 {
            let kernel = if self.settings.coalesced_b {
                Kernel::GemmBatchedBm64Bn128Coalesced
            } else {
                Kernel::GemmBatchedBm64Bn128
            };
            self.gemm_into_tile(
                rec,
                weight,
                patches,
                out,
                job,
                kernel,
                (shaders::BM64, shaders::BN),
            );
        } else if out_channels <= 192 && self.settings.bm96 {
            self.gemm_into_tile(
                rec,
                weight,
                patches,
                out,
                job,
                Kernel::GemmBatchedBm96Bn128,
                (shaders::BM96, shaders::BN),
            );
        } else {
            match self.gemm_into(rec, weight, patches, out, job) {
                Ok(()) => {},
                Err(e) => {
                    return Err(e);
                },
            }
        }
        match bias {
            Some(bias) => self.add_row_bias_in_place(
                rec,
                out,
                bias,
                shape.batch * out_channels,
                positions,
                out_channels,
            ),
            None => Ok(()),
        }
    }

    pub open spec fn conv2d_into_plan(
        self,
        s: Plan,
        x: TensorView,
        weight: TensorView,
        bias: Option<TensorView>,
        patches: TensorView,
        out: TensorView,
        shape: Im2ColShape,
        out_channels: usize,
    ) -> Plan {
        self.conv2d_gemm_into_plan(
            self.conv2d_gather_into_plan(s, x, patches, shape),
            weight,
            x,
            patches,
            out,
            shape,
            out_channels,
            bias,
        )
    }

    /// One convolution: gather, product, bias. `out` is
    /// `(batch, out_channels, positions)` tight.
    pub fn conv2d_into(
        &self,
        rec: &mut Recorder,
        x: &DevTensor,
        weight: &DevTensor,
        bias: Option<&DevTensor>,
        patches: &DevTensor,
        out: &DevTensor,
        shape: Im2ColShape,
        out_channels: usize,
    ) -> (r: Result<(), Error>)
        requires
            x.wf(),
            weight.wf(),
            kernels::optional_wf(bias),
            patches.wf(),
            out.wf(),
            conv_fits(shape, out_channels),
            shape.input_fits(),
            self.conv_is_general(shape, out_channels) ==> shape.batch >= 1,
        ensures
            recorder::settled(final(rec)@, r) == self.conv2d_into_plan(
                old(rec)@,
                x@,
                weight@,
                kernels::described(bias),
                patches@,
                out@,
                shape,
                out_channels,
            ),
    {
        proof {
            rec.lemma_running();
        }
        match self.conv2d_gather_into(rec, x, patches, shape) {
            Ok(()) => {},
            Err(e) => {
                return Err(e);
            },
        }
        self.conv2d_gemm_into(rec, weight, x, patches, out, shape, out_channels, bias)
    }
}

} // verus!
