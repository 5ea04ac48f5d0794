//! A recorder that stops at the first error.
//!
//! A pass takes the same steps as a [`Recorder`]. After one of them failed the rest
//! change nothing, so a long composition reads as a straight line and the error
//! comes out at its end.

use vstd::prelude::*;
use vstd::string::*;

use crate::error::Error;
use crate::gpu::convolution;
use crate::gpu::kernels;
use crate::gpu::kernels::Kernels;
use crate::gpu::recorder;
use crate::gpu::recorder::{Command, HostInput, Plan, Recorder};
use crate::gpu::shapes::{Activation, Col2ImShape, GemmJob, GroupNormShape, Im2ColShape};
use crate::gpu::tensor;
use crate::gpu::tensor::DevTensor;
use crate::text;

verus! {

/// A recorder with the error that stopped it, if one did.
#[derive(Debug)]
pub struct Pass {
    rec: Recorder,
    fault: Option<Error>,
}

impl View for Pass {
    type V = Plan;

    closed spec fn view(&self) -> Plan {
        Plan {
            fault: match self.fault {
                Some(e) => Some(e@),
                None => None,
            },
            ..self.rec@
        }
    }
}

impl Pass {
    /// An empty pass; see [`Recorder::new`].
    pub fn new(id: u32, limit: u64) -> (r: Self)
        ensures
            r@ == (Plan { id, limit, commands: Seq::empty(), fault: None }),
    {
        Pass { rec: Recorder::new(id, limit), fault: None }
    }

    /// The commands, in order, or the error that stopped the pass.
    pub fn finish(self) -> (r: Result<Vec<Command>, Error>)
        ensures
            match r {
                Ok(commands) => self@.fault is None && recorder::commands_view(commands@)
                    == self@.commands,
                Err(e) => self@.fault == Some(e@),
            },
    {
        match self.fault {
            Some(e) => Err(e),
            None => Ok(self.rec.into_commands()),
        }
    }

    fn settle(&mut self, r: Result<(), Error>)
        requires
            old(self)@.fault is None,
        ensures
            final(self)@ == recorder::settled(old(self)@, r),
    {
        match r {
            Ok(()) => {},
            Err(e) => {
                self.fault = Some(e);
            },
        }
    }

    /// Stops with `e`.
    pub fn fail(&mut self, e: Error)
        ensures
            final(self)@ == old(self)@.fail(e@),
    {
        if self.fault.is_none() {
            self.fault = Some(e);
        }
    }

    // ---------------------------------------------------------------- tensors

    /// Asks for a buffer of `bytes` bytes.
    pub fn allocate(&mut self, bytes: u64, label: &str) -> (r: DevTensor)
        requires
            recorder::roundable(bytes as nat),
        ensures
            final(self)@ == old(self)@.allocate(bytes as nat, label@),
            r@ == old(self)@.fresh(seq![(bytes / 4) as usize]),
            r.wf(),
            r@.len() == bytes / 4,
    {
        let shape: Vec<usize> = vec![(bytes / 4) as usize];
        proof {
            self.rec.lemma_running();
            assert(shape@ =~= seq![(bytes / 4) as usize]);
            tensor::lemma_axes_1(shape@);
        }
        let fresh = DevTensor { buffer: self.rec.next_buffer(), offset: 0, shape };
        if self.fault.is_some() {
            return fresh;
        }
        let asked = self.rec.allocate(bytes, label);
        proof {
            self.rec.lemma_running();
        }
        match asked {
            Ok(t) => t,
            Err(e) => {
                self.fault = Some(e);
                fresh
            },
        }
    }

    /// Asks for a buffer that holds `shape`.
    pub fn tensor(&mut self, shape: Vec<usize>, label: &str) -> (r: DevTensor)
        requires
            recorder::askable(shape@),
        ensures
            final(self)@ == old(self)@.tensor(shape@, label@),
            r@ == old(self)@.fresh(shape@),
            r.wf(),
    {
        let bytes: u64 = (tensor::elements_of(&shape) * 4) as u64;
        let t = self.allocate(bytes, label);
        DevTensor { buffer: t.buffer, offset: 0, shape }
    }

    /// Asks for a buffer of `shape` that holds `words`.
    pub fn upload(&mut self, shape: Vec<usize>, words: Vec<u32>, label: &str) -> (r: DevTensor)
        requires
            recorder::askable(shape@),
            4 * words@.len() <= usize::MAX,
        ensures
            final(self)@ == old(self)@.upload(shape@, words@, label@),
            r@ == old(self)@.fresh(shape@),
            r.wf(),
    {
        proof {
            self.rec.lemma_running();
        }
        let copy = shape.clone();
        assert(copy@ =~= shape@);
        let fresh = DevTensor { buffer: self.rec.next_buffer(), offset: 0, shape: copy };
        if self.fault.is_some() {
            return fresh;
        }
        let asked = self.rec.upload(shape, words, label);
        proof {
            self.rec.lemma_running();
        }
        match asked {
            Ok(t) => t,
            Err(e) => {
                self.fault = Some(e);
                fresh
            },
        }
    }

    /// Asks for a buffer of `shape` that the host fills when the pass runs.
    pub fn input(
        &mut self,
        shape: Vec<usize>,
        input: HostInput,
        dedicated: bool,
        label: &str,
    ) -> (r: DevTensor)
        requires
            recorder::askable(shape@),
        ensures
            final(self)@ == old(self)@.input(shape@, input, dedicated, label@),
            r@ == old(self)@.fresh(shape@),
            r.wf(),
    {
        proof {
            self.rec.lemma_running();
        }
        let copy = shape.clone();
        assert(copy@ =~= shape@);
        let fresh = DevTensor { buffer: self.rec.next_buffer(), offset: 0, shape: copy };
        if self.fault.is_some() {
            return fresh;
        }
        let asked = self.rec.input(shape, input, dedicated, label);
        proof {
            self.rec.lemma_running();
        }
        match asked {
            Ok(t) => t,
            Err(e) => {
                self.fault = Some(e);
                fresh
            },
        }
    }

    /// The same run under another shape.
    pub fn reshape(&mut self, t: &DevTensor, shape: Vec<usize>) -> (r: DevTensor)
        requires
            t.wf(),
            tensor::countable(shape@),
            4 * tensor::elements(shape@) <= usize::MAX,
        ensures
            final(self)@ == old(self)@.reshape(t@, shape@),
            r@ == recorder::reshaped(t@, shape@),
            r.wf(),
    {
        let len: usize = tensor::elements_of(&shape);
        let own: usize = t.len();
        if len == own {
            return DevTensor { buffer: t.buffer, offset: t.offset, shape };
        }
        self.fail(Error::ShapeOf(tensor::reshape_fault_of(&t.shape, &shape)));
        DevTensor { buffer: t.buffer, offset: 0, shape }
    }

    /// A window of `shape` from element `start` on, inside `t`.
    pub fn slice(&mut self, t: &DevTensor, start: usize, shape: Vec<usize>) -> (r: DevTensor)
        requires
            t.wf(),
            tensor::countable(shape@),
            start + tensor::elements(shape@) <= t@.len(),
        ensures
            final(self)@ == old(self)@.slice(t@, start as int, shape@),
            r@ == recorder::window(t@, start as int, shape@),
            r.wf(),
    {
        let copy = shape.clone();
        assert(copy@ =~= shape@);
        match t.slice(start, shape) {
            Ok(w) => w,
            Err(e) => {
                self.fail(e);
                DevTensor { buffer: t.buffer, offset: t.offset + (start * 4) as u64, shape: copy }
            },
        }
    }

    /// Observes `t` as `name`, if `asked` is wanted.
    pub fn trace_with(&mut self, asked: String, name: String, t: &DevTensor)
        ensures
            final(self)@ == old(self)@.trace_with(asked@, name@, t@),
    {
        if self.fault.is_some() {
            return;
        }
        proof {
            self.rec.lemma_running();
        }
        self.rec.trace(asked, name, t);
        proof {
            self.rec.lemma_running();
        }
    }

    /// Observes `t` as `name`.
    pub fn trace(&mut self, name: String, t: &DevTensor)
        ensures
            final(self)@ == old(self)@.trace(name@, t@),
    {
        let asked = text::concat(name.as_str(), "");
        proof {
            reveal_strlit("");
            assert(asked@ =~= name@);
        }
        self.trace_with(asked, name, t);
    }

    /// Has the host read `t` when the pass is done.
    pub fn readback(&mut self, t: &DevTensor)
        ensures
            final(self)@ == old(self)@.command(
                recorder::CommandView::Readback { tensor: t@ },
            ),
    {
        if self.fault.is_some() {
            return;
        }
        proof {
            self.rec.lemma_running();
        }
        self.rec.readback(t);
        proof {
            self.rec.lemma_running();
        }
    }

    // ------------------------------------------------------------- operations

    /// Swaps the middle axes of `(batch, rows, cols, width)`.
    pub fn transpose(
        &mut self,
        k: &Kernels,
        x: &DevTensor,
        out: &DevTensor,
        batch: usize,
        rows: usize,
        cols: usize,
        width: usize,
    )
        requires
            x.wf(),
            out.wf(),
            batch * rows <= usize::MAX,
            batch * rows * cols <= usize::MAX,
            batch * rows * cols * width <= usize::MAX,
        ensures
            final(self)@ == k.transpose_plan(old(self)@, x@, out@, batch, rows, cols, width),
    {
        if self.fault.is_some() {
            return;
        }
        proof {
            self.rec.lemma_running();
        }
        let r = k.transpose(&mut self.rec, x, out, batch, rows, cols, width);
        proof {
            self.rec.lemma_running();
        }
        self.settle(r);
    }

    /// One product.
    pub fn gemm_into(
        &mut self,
        k: &Kernels,
        a: &DevTensor,
        b: &DevTensor,
        c: &DevTensor,
        job: GemmJob,
    )
        requires
            a.wf(),
            b.wf(),
            c.wf(),
            kernels::product_fits(job),
        ensures
            final(self)@ == k.gemm_into_plan(old(self)@, a@, b@, c@, job),
    {
        if self.fault.is_some() {
            return;
        }
        proof {
            self.rec.lemma_running();
        }
        let r = k.gemm_into(&mut self.rec, a, b, c, job);
        proof {
            self.rec.lemma_running();
        }
        self.settle(r);
    }

    /// Softmax of every scaled row.
    pub fn softmax_scaled(
        &mut self,
        k: &Kernels,
        x: &DevTensor,
        out: &DevTensor,
        rows: usize,
        cols: usize,
        scale: u32,
    )
        requires
            x.wf(),
            out.wf(),
        ensures
            final(self)@ == k.softmax_scaled_plan(old(self)@, x@, out@, rows, cols, scale),
    {
        if self.fault.is_some() {
            return;
        }
        proof {
            self.rec.lemma_running();
        }
        k.softmax_scaled(&mut self.rec, x, out, rows, cols, scale);
        proof {
            self.rec.lemma_running();
        }
    }

    /// Copies the first `count` elements.
    pub fn copy(
        &mut self,
        k: &Kernels,
        x: &DevTensor,
        out: &DevTensor,
        count: usize,
    )
        requires
            x.wf(),
            out.wf(),
            4 * count <= usize::MAX,
        ensures
            final(self)@ == k.copy_plan(old(self)@, x@, out@, count),
    {
        if self.fault.is_some() {
            return;
        }
        proof {
            self.rec.lemma_running();
        }
        k.copy(&mut self.rec, x, out, count);
        proof {
            self.rec.lemma_running();
        }
    }

    /// Adds `source`, repeated, into `out`.
    pub fn add_in_place(
        &mut self,
        k: &Kernels,
        out: &DevTensor,
        source: &DevTensor,
    )
        requires
            out.wf(),
            source.wf(),
            source@.len() > 0 || out@.len() == 0,
        ensures
            final(self)@ == k.add_in_place_plan(old(self)@, out@, source@),
    {
        if self.fault.is_some() {
            return;
        }
        proof {
            self.rec.lemma_running();
        }
        let r = k.add_in_place(&mut self.rec, out, source);
        proof {
            self.rec.lemma_running();
        }
        self.settle(r);
    }

    /// The activation, in place.
    pub fn gelu_in_place(
        &mut self,
        k: &Kernels,
        x: &DevTensor,
    )
        requires
            x.wf(),
        ensures
            final(self)@ == k.gelu_in_place_plan(old(self)@, x@),
    {
        if self.fault.is_some() {
            return;
        }
        proof {
            self.rec.lemma_running();
        }
        k.gelu_in_place(&mut self.rec, x);
        proof {
            self.rec.lemma_running();
        }
    }

    /// One affine and activation per channel, in place.
    pub fn channel_affine_act_in_place(
        &mut self,
        k: &Kernels,
        x: &DevTensor,
        scale: &DevTensor,
        shift: &DevTensor,
        batch: usize,
        channels: usize,
        plane: usize,
        act: Activation,
    )
        requires
            x.wf(),
            scale.wf(),
            shift.wf(),
            batch * channels <= usize::MAX,
            batch * channels * plane <= usize::MAX,
        ensures
            final(self)@ == k.channel_affine_act_in_place_plan(old(self)@, x@, scale@, shift@, batch, channels, plane, act),
    {
        if self.fault.is_some() {
            return;
        }
        proof {
            self.rec.lemma_running();
        }
        let r = k.channel_affine_act_in_place(&mut self.rec, x, scale, shift, batch, channels, plane, act);
        proof {
            self.rec.lemma_running();
        }
        self.settle(r);
    }

    /// Group normalisation.
    pub fn group_norm_into(
        &mut self,
        k: &Kernels,
        x: &DevTensor,
        gamma: &DevTensor,
        beta: &DevTensor,
        out: &DevTensor,
        shape: GroupNormShape,
    )
        requires
            x.wf(),
            gamma.wf(),
            beta.wf(),
            out.wf(),
            shape.empty() || shape.fits() && Kernels::group_scratch_fits(shape),
        ensures
            final(self)@ == k.group_norm_into_plan(old(self)@, x@, gamma@, beta@, out@, shape),
    {
        if self.fault.is_some() {
            return;
        }
        proof {
            self.rec.lemma_running();
        }
        let r = k.group_norm_into(&mut self.rec, x, gamma, beta, out, shape);
        proof {
            self.rec.lemma_running();
        }
        self.settle(r);
    }

    /// Gathers some rows of a convolution.
    pub fn conv2d_gather_rows_into(
        &mut self,
        k: &Kernels,
        x: &DevTensor,
        patches: &DevTensor,
        shape: Im2ColShape,
        row: usize,
        pitch: usize,
    )
        requires
            x.wf(),
            patches.wf(),
            Kernels::gather_rows_fit(shape, row, pitch),
        ensures
            final(self)@ == k.conv2d_gather_rows_into_plan(old(self)@, x@, patches@, shape, row, pitch),
    {
        if self.fault.is_some() {
            return;
        }
        proof {
            self.rec.lemma_running();
        }
        let r = k.conv2d_gather_rows_into(&mut self.rec, x, patches, shape, row, pitch);
        proof {
            self.rec.lemma_running();
        }
        self.settle(r);
    }

    /// The product half of a convolution.
    pub fn conv2d_gemm_into(
        &mut self,
        k: &Kernels,
        weight: &DevTensor,
        x: &DevTensor,
        patches: &DevTensor,
        out: &DevTensor,
        shape: Im2ColShape,
        out_channels: usize,
        bias: Option<&DevTensor>,
    )
        requires
            weight.wf(),
            x.wf(),
            patches.wf(),
            out.wf(),
            kernels::optional_wf(bias),
            convolution::conv_fits(shape, out_channels),
            k.conv_is_general(shape, out_channels) ==> shape.batch >= 1,
        ensures
            final(self)@ == k.conv2d_gemm_into_plan(old(self)@, weight@, x@, patches@, out@, shape, out_channels, kernels::described(bias)),
    {
        if self.fault.is_some() {
            return;
        }
        proof {
            self.rec.lemma_running();
        }
        let r = k.conv2d_gemm_into(&mut self.rec, weight, x, patches, out, shape, out_channels, bias);
        proof {
            self.rec.lemma_running();
        }
        self.settle(r);
    }

    /// One convolution.
    pub fn conv2d_into(
        &mut self,
        k: &Kernels,
        x: &DevTensor,
        weight: &DevTensor,
        bias: Option<&DevTensor>,
        patches: &DevTensor,
        out: &DevTensor,
        shape: Im2ColShape,
        out_channels: usize,
    )
        requires
            x.wf(),
            weight.wf(),
            kernels::optional_wf(bias),
            patches.wf(),
            out.wf(),
            convolution::conv_fits(shape, out_channels),
            shape.input_fits(),
            k.conv_is_general(shape, out_channels) ==> shape.batch >= 1,
        ensures
            final(self)@ == k.conv2d_into_plan(old(self)@, x@, weight@, kernels::described(bias), patches@, out@, shape, out_channels),
    {
        if self.fault.is_some() {
            return;
        }
        proof {
            self.rec.lemma_running();
        }
        let r = k.conv2d_into(&mut self.rec, x, weight, bias, patches, out, shape, out_channels);
        proof {
            self.rec.lemma_running();
        }
        self.settle(r);
    }

    /// One transposed convolution.
    pub fn conv_transpose2d_into(
        &mut self,
        k: &Kernels,
        x: &DevTensor,
        weight: &DevTensor,
        bias: Option<&DevTensor>,
        padded_input: &DevTensor,
        taps: &DevTensor,
        out: &DevTensor,
        shape: Col2ImShape,
    )
        requires
            x.wf(),
            weight.wf(),
            kernels::optional_wf(bias),
            padded_input.wf(),
            taps.wf(),
            out.wf(),
            shape.upsample_fits(),
        ensures
            final(self)@ == k.conv_transpose2d_into_plan(old(self)@, x@, weight@, kernels::described(bias), padded_input@, taps@, out@, shape),
    {
        if self.fault.is_some() {
            proof {
                k.lemma_upsample_stopped(self@, x@, weight@, kernels::described(bias), padded_input@, taps@, out@, shape);
            }
            return;
        }
        proof {
            self.rec.lemma_running();
        }
        let r = k.conv_transpose2d_into(&mut self.rec, x, weight, bias, padded_input, taps, out, shape);
        proof {
            self.rec.lemma_running();
        }
        self.settle(r);
    }

    /// Keeps some rows of each batch.
    pub fn crop_rows_into(
        &mut self,
        k: &Kernels,
        x: &DevTensor,
        out: &DevTensor,
        batch: usize,
        src_batch_stride: usize,
        dst_rows: usize,
        cols: usize,
        row_offset: usize,
    )
        requires
            x.wf(),
            out.wf(),
            batch * dst_rows <= usize::MAX,
            batch * dst_rows * cols <= usize::MAX,
            src_batch_stride * batch <= usize::MAX,
        ensures
            final(self)@ == k.crop_rows_into_plan(old(self)@, x@, out@, batch, src_batch_stride, dst_rows, cols, row_offset),
    {
        if self.fault.is_some() {
            return;
        }
        proof {
            self.rec.lemma_running();
        }
        let r = k.crop_rows_into(&mut self.rec, x, out, batch, src_batch_stride, dst_rows, cols, row_offset);
        proof {
            self.rec.lemma_running();
        }
        self.settle(r);
    }

    /// Zeroes the first `count` elements.
    pub fn fill_zero_into(
        &mut self,
        k: &Kernels,
        x: &DevTensor,
        count: usize,
    )
        requires
            x.wf(),
        ensures
            final(self)@ == k.fill_zero_into_plan(old(self)@, x@, count),
    {
        if self.fault.is_some() {
            return;
        }
        proof {
            self.rec.lemma_running();
        }
        let r = k.fill_zero_into(&mut self.rec, x, count);
        proof {
            self.rec.lemma_running();
        }
        self.settle(r);
    }

    /// Copies rows from one pitch to another.
    pub fn copy_pitched_into(
        &mut self,
        k: &Kernels,
        x: &DevTensor,
        out: &DevTensor,
        batch: usize,
        rows: usize,
        cols: usize,
        src_pitch: usize,
        dst_pitch: usize,
        dst_rows: usize,
    )
        requires
            x.wf(),
            out.wf(),
            batch * rows <= usize::MAX,
            batch * rows * src_pitch <= usize::MAX,
            batch * dst_rows <= usize::MAX,
            batch * dst_rows * dst_pitch <= usize::MAX,
            batch * rows * cols <= usize::MAX,
        ensures
            final(self)@ == k.copy_pitched_into_plan(old(self)@, x@, out@, batch, rows, cols, src_pitch, dst_pitch, dst_rows),
    {
        if self.fault.is_some() {
            return;
        }
        proof {
            self.rec.lemma_running();
        }
        let r = k.copy_pitched_into(&mut self.rec, x, out, batch, rows, cols, src_pitch, dst_pitch, dst_rows);
        proof {
            self.rec.lemma_running();
        }
        self.settle(r);
    }

    /// Adds one number per row.
    pub fn add_row_bias_in_place(
        &mut self,
        k: &Kernels,
        x: &DevTensor,
        bias: &DevTensor,
        rows: usize,
        cols: usize,
        bias_rows: usize,
    )
        requires
            x.wf(),
            bias.wf(),
            rows * cols <= usize::MAX,
        ensures
            final(self)@ == k.add_row_bias_in_place_plan(old(self)@, x@, bias@, rows, cols, bias_rows),
    {
        if self.fault.is_some() {
            return;
        }
        proof {
            self.rec.lemma_running();
        }
        let r = k.add_row_bias_in_place(&mut self.rec, x, bias, rows, cols, bias_rows);
        proof {
            self.rec.lemma_running();
        }
        self.settle(r);
    }

    /// `left * sigmoid(right)` of every row's halves, into a new tensor.
    pub fn glu(&mut self, k: &Kernels, x: &DevTensor, rows: usize, half: usize) -> (r: DevTensor)
        requires
            x.wf(),
            recorder::askable(seq![rows, half]),
        ensures
            final(self)@ == k.glu_plan(old(self)@, x@, rows, half),
            r@ == old(self)@.fresh(seq![rows, half]),
            r.wf(),
    {
        proof {
            self.rec.lemma_running();
        }
        let shape: Vec<usize> = vec![rows, half];
        assert(shape@ =~= seq![rows, half]);
        let fresh = DevTensor { buffer: self.rec.next_buffer(), offset: 0, shape };
        if self.fault.is_some() {
            return fresh;
        }
        let gated = k.glu(&mut self.rec, x, rows, half);
        proof {
            self.rec.lemma_running();
        }
        match gated {
            Ok(t) => t,
            Err(e) => {
                self.fault = Some(e);
                fresh
            },
        }
    }
}

} // verus!
