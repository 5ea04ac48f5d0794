//! Transposed convolutions: one product gives every tap, a gather folds them.

use vstd::prelude::*;

use crate::error::{Error, Fault};
use crate::gpu::arith;
use crate::gpu::kernels;
use crate::gpu::kernels::Kernels;
use crate::gpu::pipelines::Kernel;
use crate::gpu::recorder;
use crate::gpu::recorder::{Plan, Recorder, Table};
use crate::gpu::shaders;
use crate::gpu::shapes::{Col2ImShape, GemmJob};
use crate::gpu::tensor::{DevTensor, TensorView};

verus! {

impl Col2ImShape {
    /// Rows of the tap matrix as the product writes it.
    pub open spec fn m_pad(self) -> int {
        arith::padded(self.m_spec(), shaders::BM as int)
    }

    /// Rows of the product's right operand.
    pub open spec fn k_pad(self) -> int {
        arith::padded(self.in_channels as int, shaders::BK as int)
    }

    /// Width of the tap matrix.
    pub open spec fn pitch(self) -> int {
        arith::padded(self.positions_in_spec(), shaders::BN as int)
    }

    /// Elements of the output.
    pub open spec fn output_len(self) -> int {
        self.batch * self.out_channels * self.positions_out_spec()
    }

    /// Whether folding taps of `pitch`-wide rows can be counted.
    pub open spec fn fold_fits(self, pitch: int) -> bool {
        &&& self.fits()
        &&& self.m_pad() <= usize::MAX
        &&& self.batch * self.m_pad() <= usize::MAX
        &&& self.batch * self.m_pad() * pitch <= usize::MAX
        &&& self.batch * self.out_channels <= usize::MAX
        &&& self.output_len() <= usize::MAX
    }

    /// Whether every size of a transposed convolution can be counted.
    pub open spec fn upsample_fits(self) -> bool {
        &&& self.fold_fits(self.pitch())
        &&& self.k_pad() <= usize::MAX
        &&& self.pitch() <= usize::MAX
        &&& self.m_pad() * self.k_pad() <= usize::MAX
        &&& self.m_pad() * self.pitch() <= usize::MAX
        &&& self.k_pad() * self.pitch() <= usize::MAX
        &&& self.batch * self.in_channels <= usize::MAX
        &&& self.batch * self.in_channels * self.positions_in_spec() <= usize::MAX
        &&& self.batch * self.k_pad() <= usize::MAX
        &&& self.batch * self.k_pad() * self.pitch() <= usize::MAX
        &&& self.out_channels * self.positions_out_spec() <= usize::MAX
    }

    /// The same for one image.
    pub open spec fn single(self) -> Col2ImShape {
        Col2ImShape { batch: 1, ..self }
    }
}

/// The product of a transposed convolution: weights times one padded image.
pub open spec fn tap_job(shape: Col2ImShape) -> GemmJob {
    GemmJob {
        m: shape.m_spec() as usize,
        n: shape.positions_in_spec() as usize,
        k: shape.in_channels,
        lda: shape.k_pad() as usize,
        ldb: shape.pitch() as usize,
        ldc: shape.pitch() as usize,
        batches: 1,
        inner_count: 1,
        a_outer: 0,
        a_inner: 0,
        b_outer: 0,
        b_inner: 0,
        c_outer: 0,
        c_inner: 0,
        transb: false,
    }
}

/// Sizes of a transposed convolution are not negative.
proof fn lemma_sizes(shape: Col2ImShape)
    requires
        shape.fits(),
    ensures
        shape.m_spec() >= 0,
        shape.positions_in_spec() >= 1,
        shape.positions_out_spec() >= 0,
        shape.m_pad() >= shape.m_spec(),
        shape.k_pad() >= shape.in_channels,
        shape.pitch() >= shape.positions_in_spec(),
{
    arith::lemma_mul_bounds(shape.out_channels as int, shape.kernel.0 as int);
    arith::lemma_mul_bounds(shape.out_channels * shape.kernel.0, shape.kernel.1 as int);
    arith::lemma_mul_bounds(shape.in_h as int, shape.in_w as int);
    arith::lemma_mul_bounds(shape.in_h - 1, shape.stride.0 as int);
    arith::lemma_mul_bounds(shape.in_w - 1, shape.stride.1 as int);
    arith::lemma_mul_bounds(shape.out_h(), shape.out_w());
    arith::law_padding(shape.m_spec(), 128);
    arith::law_padding(shape.in_channels as int, 16);
    arith::law_padding(shape.positions_in_spec(), 128);
}

/// The product of a transposed convolution can be counted.
proof fn lemma_tap_job_fits(shape: Col2ImShape)
    requires
        shape.upsample_fits(),
    ensures
        kernels::product_fits(tap_job(shape)),
{
    lemma_sizes(shape);
    let job = tap_job(shape);
    let m = shape.m_spec();
    let n = shape.positions_in_spec();
    let k = shape.in_channels as int;
    let mp = shape.m_pad();
    let kp = shape.k_pad();
    let pitch = shape.pitch();
    if m > 0 && k > 0 {
        assert(0int / 1 == 0 && 0int % 1 == 0);
        assert((m - 1) * kp + k <= mp * kp) by (nonlinear_arith)
            requires
                0 <= m <= mp,
                0 <= k <= kp,
        {
        }
        assert((k - 1) * pitch + n <= kp * pitch) by (nonlinear_arith)
            requires
                0 <= k <= kp,
                0 <= n <= pitch,
        {
        }
        assert((m - 1) * pitch + n <= mp * pitch) by (nonlinear_arith)
            requires
                0 <= m <= mp,
                0 <= n <= pitch,
        {
        }
    }
}

/// The place of one batch's block.
proof fn lemma_block(b: int, batches: int, block: int)
    by (nonlinear_arith)
    requires
        0 <= b < batches,
        block >= 0,
    ensures
        0 <= b * block,
        b * block + block <= batches * block,
{
}

proof fn lemma_regroup(a: int, b: int, c: int)
    by (nonlinear_arith)
    ensures
        a * b * c == a * (b * c),
{
}

impl Kernels {
    pub open spec fn col2im_into_plan(
        self,
        s: Plan,
        taps: TensorView,
        out: TensorView,
        shape: Col2ImShape,
        pitch: usize,
    ) -> Plan {
        let read = shape.batch * shape.m_pad() * pitch;
        s.require(
            pitch >= shape.positions_in_spec(),
            Error::Shape(
                Fault::Col2ImPitch { pitch, positions: shape.positions_in_spec() as usize },
            ),
        ).require(pitch <= u32::MAX, Error::Shape(Fault::Col2ImWord { pitch })).require(
            taps.len() >= read,
            Error::Shape(Fault::Col2ImTaps { need: read as usize, len: taps.len() as usize }),
        ).require(
            out.len() >= shape.output_len(),
            Error::Shape(
                Fault::Col2ImTarget { need: shape.output_len() as usize, len: out.len() as usize },
            ),
        ).launch(
            "col2im"@,
            Kernel::Col2im,
            kernels::no_bindings().push(recorder::whole(taps)).push(recorder::whole(out)).push(
                recorder::params(
                    shape.out_channels as u32,
                    shape.kernel.0 as u32,
                    shape.kernel.1 as u32,
                    shape.out_h() as u32,
                ),
            ).push(
                recorder::params(
                    shape.out_w() as u32,
                    shape.stride.0 as u32,
                    shape.stride.1 as u32,
                    shape.in_h as u32,
                ),
            ).push(
                recorder::params(
                    shape.in_w as u32,
                    shape.batch as u32,
                    pitch as u32,
                    shape.m_pad() as u32,
                ),
            ),
            kernels::over(shape.output_len()),
        )
    }

    /// Folds a tap matrix into an image: every output pixel sums the taps that land
    /// on it, so no element is written twice.
    pub fn col2im_into(
        &self,
        rec: &mut Recorder,
        taps: &DevTensor,
        out: &DevTensor,
        shape: Col2ImShape,
        pitch: usize,
    ) -> (r: Result<(), Error>)
        requires
            taps.wf(),
            out.wf(),
            shape.fold_fits(pitch as int),
        ensures
            recorder::settled(final(rec)@, r) == self.col2im_into_plan(
                old(rec)@,
                taps@,
                out@,
                shape,
                pitch,
            ),
    {
        proof {
            rec.lemma_running();
            lemma_sizes(shape);
        }
        let (out_h, out_w) = shape.out_hw();
        let positions: usize = shape.positions_in();
        let m_pad: usize = arith::pad_ceil(shape.m(), shaders::BM);
        if pitch < positions {
            return Err(Error::Shape(Fault::Col2ImPitch { pitch, positions }));
        }
        if pitch as u64 > u32::MAX as u64 {
            return Err(Error::Shape(Fault::Col2ImWord { pitch }));
        }
        let read: usize = shape.batch * m_pad * pitch;
        let taps_len: usize = taps.len();
        if taps_len < read {
            return Err(Error::Shape(Fault::Col2ImTaps { need: read, len: taps_len }));
        }
        let wanted: usize = shape.batch * shape.out_channels * shape.positions_out();
        let out_len: usize = out.len();
        if out_len < wanted {
            return Err(Error::Shape(Fault::Col2ImTarget { need: wanted, len: out_len }));
        }
        let table = Table::new().whole(taps).whole(out).params(
            shape.out_channels as u32,
            shape.kernel.0 as u32,
            shape.kernel.1 as u32,
            out_h as u32,
        ).params(out_w as u32, shape.stride.0 as u32, shape.stride.1 as u32, shape.in_h as u32).params(
            shape.in_w as u32,
            shape.batch as u32,
            pitch as u32,
            m_pad as u32,
        );
        rec.dispatch("col2im", Kernel::Col2im, table, kernels::over_of(wanted));
        Ok(())
    }

    /// One image of a transposed convolution: taps, fold, bias.
    pub open spec fn upsample_image_plan(
        self,
        s: Plan,
        weight: TensorView,
        bias: Option<TensorView>,
        padded_input: TensorView,
        taps: TensorView,
        out: TensorView,
        shape: Col2ImShape,
        b: int,
    ) -> Plan {
        let input_block = shape.k_pad() * shape.pitch();
        let tap_block = shape.m_pad() * shape.pitch();
        let out_block = shape.out_channels * shape.positions_out_spec();
        let image = recorder::window(padded_input, b * input_block, seq![input_block as usize]);
        let image_taps = recorder::window(taps, b * tap_block, seq![tap_block as usize]);
        let image_out = recorder::window(out, b * out_block, seq![out_block as usize]);
        let multiplied = self.gemm_into_plan(
            s.slice(padded_input, b * input_block, seq![input_block as usize]).slice(
                taps,
                b * tap_block,
                seq![tap_block as usize],
            ).slice(out, b * out_block, seq![out_block as usize]),
            weight,
            image,
            image_taps,
            tap_job(shape),
        );
        let folded = self.col2im_into_plan(
            multiplied,
            image_taps,
            image_out,
            shape.single(),
            shape.pitch() as usize,
        );
        match bias {
            Some(bias) => self.add_row_bias_in_place_plan(
                folded,
                image_out,
                bias,
                shape.out_channels,
                shape.positions_out_spec() as usize,
                shape.out_channels,
            ),
            None => folded,
        }
    }

    fn upsample_image(
        &self,
        rec: &mut Recorder,
        weight: &DevTensor,
        bias: Option<&DevTensor>,
        padded_input: &DevTensor,
        taps: &DevTensor,
        out: &DevTensor,
        shape: Col2ImShape,
        b: usize,
    ) -> (r: Result<(), Error>)
        requires
            weight.wf(),
            kernels::optional_wf(bias),
            padded_input.wf(),
            taps.wf(),
            out.wf(),
            shape.upsample_fits(),
            b < shape.batch,
        ensures
            recorder::settled(final(rec)@, r) == self.upsample_image_plan(
                old(rec)@,
                weight@,
                kernels::described(bias),
                padded_input@,
                taps@,
                out@,
                shape,
                b as int,
            ),
    {
        proof {
            rec.lemma_running();
            lemma_sizes(shape);
            lemma_tap_job_fits(shape);
            let n = shape.batch as int;
            lemma_block(b as int, n, shape.k_pad() * shape.pitch());
            lemma_block(b as int, n, shape.m_pad() * shape.pitch());
            lemma_block(b as int, n, shape.out_channels * shape.positions_out_spec());
            lemma_regroup(n, shape.k_pad(), shape.pitch());
            lemma_regroup(n, shape.m_pad(), shape.pitch());
            lemma_regroup(n, shape.out_channels as int, shape.positions_out_spec());
            arith::lemma_mul_bounds(shape.k_pad(), shape.pitch());
            arith::lemma_mul_bounds(shape.m_pad(), shape.pitch());
            arith::lemma_mul_bounds(shape.out_channels as int, shape.positions_out_spec());
            assert(1 * shape.m_pad() == shape.m_pad());
            assert(1 * shape.out_channels == shape.out_channels);
        }
        let k_pad: usize = arith::pad_ceil(shape.in_channels, shaders::BK);
        let positions_in: usize = shape.positions_in();
        let pitch: usize = arith::pad_ceil(positions_in, shaders::BN);
        let m: usize = shape.m();
        let m_pad: usize = arith::pad_ceil(m, shaders::BM);
        let positions_out: usize = shape.positions_out();
        let input_block: usize = k_pad * pitch;
        let tap_block: usize = m_pad * pitch;
        let out_block: usize = shape.out_channels * positions_out;
        let image = match recorder::window_of(padded_input, b * input_block, input_block) {
            Ok(t) => t,
            Err(e) => {
                return Err(e);
            },
        };
        let image_taps = match recorder::window_of(taps, b * tap_block, tap_block) {
            Ok(t) => t,
            Err(e) => {
                return Err(e);
            },
        };
        let image_out = match recorder::window_of(out, b * out_block, out_block) {
            Ok(t) => t,
            Err(e) => {
                return Err(e);
            },
        };
        let job = GemmJob {
            m,
            n: positions_in,
            k: shape.in_channels,
            lda: k_pad,
            ldb: pitch,
            ldc: pitch,
            batches: 1,
            inner_count: 1,
            a_outer: 0,
            a_inner: 0,
            b_outer: 0,
            b_inner: 0,
            c_outer: 0,
            c_inner: 0,
            transb: false,
        };
        assert(job == tap_job(shape));
        match self.gemm_into(rec, weight, &image, &image_taps, job) {
            Ok(()) => {},
            Err(e) => {
                return Err(e);
            },
        }
        let mut single = shape;
        single.batch = 1;
        match self.col2im_into(rec, &image_taps, &image_out, single, pitch) {
            Ok(()) => {},
            Err(e) => {
                return Err(e);
            },
        }
        match bias {
            Some(bias) => self.add_row_bias_in_place(
                rec,
                &image_out,
                bias,
                shape.out_channels,
                positions_out,
                shape.out_channels,
            ),
            None => Ok(()),
        }
    }

    /// The first `n` images of a transposed convolution.
    pub open spec fn upsample_images_plan(
        self,
        s: Plan,
        weight: TensorView,
        bias: Option<TensorView>,
        padded_input: TensorView,
        taps: TensorView,
        out: TensorView,
        shape: Col2ImShape,
        n: nat,
    ) -> Plan
        decreases n,
    {
        if n == 0 {
            s
        } else {
            self.upsample_image_plan(
                self.upsample_images_plan(
                    s,
                    weight,
                    bias,
                    padded_input,
                    taps,
                    out,
                    shape,
                    (n - 1) as nat,
                ),
                weight,
                bias,
                padded_input,
                taps,
                out,
                shape,
                n - 1,
            )
        }
    }

    /// A plan that stopped stays as it is.
    proof fn lemma_images_stopped(
        self,
        s: Plan,
        weight: TensorView,
        bias: Option<TensorView>,
        padded_input: TensorView,
        taps: TensorView,
        out: TensorView,
        shape: Col2ImShape,
        done: nat,
        n: nat,
    )
        requires
            done <= n,
            self.upsample_images_plan(s, weight, bias, padded_input, taps, out, shape, done).fault
                is Some,
        ensures
            self.upsample_images_plan(s, weight, bias, padded_input, taps, out, shape, n)
                == self.upsample_images_plan(s, weight, bias, padded_input, taps, out, shape, done),
        decreases n,
    {
        if done < n {
            self.lemma_images_stopped(
                s,
                weight,
                bias,
                padded_input,
                taps,
                out,
                shape,
                done,
                (n - 1) as nat,
            );
        }
    }

    /// The checks in front of a transposed convolution.
    pub open spec fn upsample_checked(
        s: Plan,
        x: TensorView,
        weight: TensorView,
        padded_input: TensorView,
        taps: TensorView,
        out: TensorView,
        shape: Col2ImShape,
    ) -> Plan {
        let weight_len = shape.m_pad() * shape.k_pad();
        let input_len = shape.batch * shape.in_channels * shape.positions_in_spec();
        let padded_len = shape.batch * shape.k_pad() * shape.pitch();
        let tap_len = shape.batch * shape.m_pad() * shape.pitch();
        let wanted = shape.output_len();
        s.require(
            shape.in_channels != 0 && shape.positions_in_spec() != 0 && shape.m_spec() != 0,
            Error::Shape(Fault::UpsampleZero),
        ).require(
            weight.len() >= weight_len,
            Error::Shape(
                Fault::UpsampleWeight { need: weight_len as usize, len: weight.len() as usize },
            ),
        ).require(
            x.len() >= input_len,
            Error::Shape(Fault::UpsampleInput { need: input_len as usize, len: x.len() as usize }),
        ).require(
            padded_input.len() >= padded_len,
            Error::Shape(
                Fault::UpsamplePadded {
                    need: padded_len as usize,
                    len: padded_input.len() as usize,
                },
            ),
        ).require(
            taps.len() >= tap_len,
            Error::Shape(Fault::UpsampleTaps { need: tap_len as usize, len: taps.len() as usize }),
        ).require(
            out.len() >= wanted,
            Error::Shape(Fault::UpsampleTarget { need: wanted as usize, len: out.len() as usize }),
        )
    }

    pub open spec fn conv_transpose2d_into_plan(
        self,
        s: Plan,
        x: TensorView,
        weight: TensorView,
        bias: Option<TensorView>,
        padded_input: TensorView,
        taps: TensorView,
        out: TensorView,
        shape: Col2ImShape,
    ) -> Plan {
        let checked = Self::upsample_checked(s, x, weight, padded_input, taps, out, shape);
        let copied = self.copy_pitched_into_plan(
            checked,
            x,
            padded_input,
            shape.batch,
            shape.in_channels,
            shape.positions_in_spec() as usize,
            shape.positions_in_spec() as usize,
            shape.pitch() as usize,
            shape.k_pad() as usize,
        );
        self.upsample_images_plan(
            copied,
            weight,
            bias,
            padded_input,
            taps,
            out,
            shape,
            shape.batch as nat,
        )
    }

    /// A plan that stopped before a transposed convolution stays as it is.
    pub proof fn lemma_upsample_stopped(
        self,
        s: Plan,
        x: TensorView,
        weight: TensorView,
        bias: Option<TensorView>,
        padded_input: TensorView,
        taps: TensorView,
        out: TensorView,
        shape: Col2ImShape,
    )
        requires
            s.fault is Some,
        ensures
            self.conv_transpose2d_into_plan(s, x, weight, bias, padded_input, taps, out, shape)
                == s,
    {
        self.lemma_images_stopped(
            s,
            weight,
            bias,
            padded_input,
            taps,
            out,
            shape,
            0,
            shape.batch as nat,
        );
    }

    fn upsample_check(
        rec: &Recorder,
        x: &DevTensor,
        weight: &DevTensor,
        padded_input: &DevTensor,
        taps: &DevTensor,
        out: &DevTensor,
        shape: Col2ImShape,
    ) -> (r: Result<(), Error>)
        requires
            x.wf(),
            weight.wf(),
            padded_input.wf(),
            taps.wf(),
            out.wf(),
            shape.upsample_fits(),
        ensures
            recorder::settled(rec@, r) == Self::upsample_checked(
                rec@,
                x@,
                weight@,
                padded_input@,
                taps@,
                out@,
                shape,
            ),
    {
        proof {
            rec.lemma_running();
            lemma_sizes(shape);
        }
        let in_channels: usize = shape.in_channels;
        let positions_in: usize = shape.positions_in();
        let k_pad: usize = arith::pad_ceil(in_channels, shaders::BK);
        let pitch: usize = arith::pad_ceil(positions_in, shaders::BN);
        let m: usize = shape.m();
        let m_pad: usize = arith::pad_ceil(m, shaders::BM);
        let positions_out: usize = shape.positions_out();
        if in_channels == 0 || positions_in == 0 || m == 0 {
            return Err(Error::Shape(Fault::UpsampleZero));
        }
        let weight_len: usize = m_pad * k_pad;
        let have_weight: usize = weight.len();
        if have_weight < weight_len {
            return Err(Error::Shape(Fault::UpsampleWeight { need: weight_len, len: have_weight }));
        }
        let input_len: usize = shape.batch * in_channels * positions_in;
        let have_input: usize = x.len();
        if have_input < input_len {
            return Err(Error::Shape(Fault::UpsampleInput { need: input_len, len: have_input }));
        }
        let padded_len: usize = shape.batch * k_pad * pitch;
        let have_padded: usize = padded_input.len();
        if have_padded < padded_len {
            return Err(Error::Shape(Fault::UpsamplePadded { need: padded_len, len: have_padded }));
        }
        let tap_len: usize = shape.batch * m_pad * pitch;
        let have_taps: usize = taps.len();
        if have_taps < tap_len {
            return Err(Error::Shape(Fault::UpsampleTaps { need: tap_len, len: have_taps }));
        }
        let wanted: usize = shape.batch * shape.out_channels * positions_out;
        let have_out: usize = out.len();
        if have_out < wanted {
            return Err(Error::Shape(Fault::UpsampleTarget { need: wanted, len: have_out }));
        }
        Ok(())
    }

    /// One transposed convolution: the input is copied to the pitch the product
    /// reads, then every image takes one product, one fold and one bias pass.
    pub fn conv_transpose2d_into(
        &self,
        rec: &mut Recorder,
        x: &DevTensor,
        weight: &DevTensor,
        bias: Option<&DevTensor>,
        padded_input: &DevTensor,
        taps: &DevTensor,
        out: &DevTensor,
        shape: Col2ImShape,
    ) -> (r: Result<(), Error>)
        requires
            x.wf(),
            weight.wf(),
            kernels::optional_wf(bias),
            padded_input.wf(),
            taps.wf(),
            out.wf(),
            shape.upsample_fits(),
        ensures
            recorder::settled(final(rec)@, r) == self.conv_transpose2d_into_plan(
                old(rec)@,
                x@,
                weight@,
                kernels::described(bias),
                padded_input@,
                taps@,
                out@,
                shape,
            ),
    {
        proof {
            rec.lemma_running();
            lemma_sizes(shape);
        }
        let ghost described = kernels::described(bias);
        let ghost checked = Self::upsample_checked(
            rec@,
            x@,
            weight@,
            padded_input@,
            taps@,
            out@,
            shape,
        );
        let ghost copied = self.copy_pitched_into_plan(
            checked,
            x@,
            padded_input@,
            shape.batch,
            shape.in_channels,
            shape.positions_in_spec() as usize,
            shape.positions_in_spec() as usize,
            shape.pitch() as usize,
            shape.k_pad() as usize,
        );
        match Self::upsample_check(rec, x, weight, padded_input, taps, out, shape) {
            Ok(()) => {},
            Err(e) => {
                proof {
                    self.lemma_images_stopped(
                        copied,
                        weight@,
                        described,
                        padded_input@,
                        taps@,
                        out@,
                        shape,
                        0,
                        shape.batch as nat,
                    );
                }
                return Err(e);
            },
        }
        let in_channels: usize = shape.in_channels;
        let positions_in: usize = shape.positions_in();
        let k_pad: usize = arith::pad_ceil(in_channels, shaders::BK);
        let pitch: usize = arith::pad_ceil(positions_in, shaders::BN);
        match self.copy_pitched_into(
            rec,
            x,
            padded_input,
            shape.batch,
            in_channels,
            positions_in,
            positions_in,
            pitch,
            k_pad,
        ) {
            Ok(()) => {},
            Err(e) => {
                proof {
                    self.lemma_images_stopped(
                        copied,
                        weight@,
                        described,
                        padded_input@,
                        taps@,
                        out@,
                        shape,
                        0,
                        shape.batch as nat,
                    );
                }
                return Err(e);
            },
        }
        let mut b: usize = 0;
        while b < shape.batch
            invariant
                b <= shape.batch,
                weight.wf(),
                kernels::optional_wf(bias),
                padded_input.wf(),
                taps.wf(),
                out.wf(),
                shape.upsample_fits(),
                described == kernels::described(bias),
                self.conv_transpose2d_into_plan(
                    old(rec)@,
                    x@,
                    weight@,
                    described,
                    padded_input@,
                    taps@,
                    out@,
                    shape,
                ) == self.upsample_images_plan(
                    copied,
                    weight@,
                    described,
                    padded_input@,
                    taps@,
                    out@,
                    shape,
                    shape.batch as nat,
                ),
                rec@ == self.upsample_images_plan(
                    copied,
                    weight@,
                    described,
                    padded_input@,
                    taps@,
                    out@,
                    shape,
                    b as nat,
                ),
            decreases shape.batch - b,
        {
            match self.upsample_image(rec, weight, bias, padded_input, taps, out, shape, b) {
                Ok(()) => {},
                Err(e) => {
                    proof {
                        rec.lemma_running();
                        self.lemma_images_stopped(
                            copied,
                            weight@,
                            described,
                            padded_input@,
                            taps@,
                            out@,
                            shape,
                            (b + 1) as nat,
                            shape.batch as nat,
                        );
                    }
                    return Err(e);
                },
            }
            b += 1;
        }
        Ok(())
    }
}

} // verus!
