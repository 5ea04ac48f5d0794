//! Recording: what a pass asks of the device, in order.
//!
//! Planning never touches a device. A [`Recorder`] collects the commands of one
//! pass (allocations, uploads, dispatches, read-backs) and whoever owns the device
//! runs them afterwards, in one submission. Dispatches carry their uniforms by
//! value, so two dispatches never share one.

use vstd::prelude::*;
use vstd::string::*;

use crate::error::{Detail, Error, ErrorView};
use crate::gpu::pipelines::Kernel;
use crate::gpu::tensor;
use crate::gpu::tensor::{BufferId, DevTensor, TensorView};
use crate::text;

verus! {

/// Bytes in the unit the memory limits are reported in.
pub const MIB: u64 = 1048576;

// ------------------------------------------------------------------- bindings

/// One entry of a dispatch's binding table.
#[verifier::ext_equal]
pub enum BindingView {
    Storage { buffer: BufferId, offset: u64, size: u64 },
    Uniform { words: Seq<u32>, size: u64 },
}

/// One entry of a dispatch's binding table: a run of a buffer, or a block of words
/// bound as `size` bytes.
#[derive(Debug)]
pub enum Binding {
    Storage { buffer: BufferId, offset: u64, size: u64 },
    Uniform { words: Vec<u32>, size: u64 },
}

impl View for Binding {
    type V = BindingView;

    open spec fn view(&self) -> BindingView {
        match self {
            Binding::Storage { buffer, offset, size } => BindingView::Storage {
                buffer: *buffer,
                offset: *offset,
                size: *size,
            },
            Binding::Uniform { words, size } => BindingView::Uniform { words: words@, size: *size },
        }
    }
}

/// A whole tensor.
pub open spec fn whole(t: TensorView) -> BindingView {
    BindingView::Storage { buffer: t.buffer, offset: t.offset, size: t.bytes() as u64 }
}

/// The first `count` elements of a tensor.
pub open spec fn first(t: TensorView, count: nat) -> BindingView {
    BindingView::Storage { buffer: t.buffer, offset: t.offset, size: (4 * count) as u64 }
}

/// Four words of parameters.
pub open spec fn params(a: u32, b: u32, c: u32, d: u32) -> BindingView {
    BindingView::Uniform { words: seq![a, b, c, d], size: 16 }
}

/// The entries of a dispatch, in binding order.
#[derive(Debug)]
pub struct Table {
    pub entries: Vec<Binding>,
}

impl View for Table {
    type V = Seq<BindingView>;

    open spec fn view(&self) -> Seq<BindingView> {
        Seq::new(self.entries@.len(), |i: int| self.entries@[i]@)
    }
}

impl Table {
    pub fn new() -> (r: Self)
        ensures
            r@ == Seq::<BindingView>::empty(),
    {
        let r = Table { entries: Vec::new() };
        assert(r@ =~= Seq::<BindingView>::empty());
        r
    }

    fn entry(self, binding: Binding) -> (r: Self)
        ensures
            r@ == self@.push(binding@),
    {
        let Table { mut entries } = self;
        entries.push(binding);
        let r = Table { entries };
        assert(r@ =~= self@.push(binding@));
        r
    }

    /// Also binds a whole tensor.
    pub fn whole(self, t: &DevTensor) -> (r: Self)
        requires
            t.wf(),
        ensures
            r@ == self@.push(whole(t@)),
    {
        self.entry(Binding::Storage { buffer: t.buffer, offset: t.offset, size: t.byte_len() })
    }

    /// Also binds a tensor's first `count` elements.
    pub fn first(self, t: &DevTensor, count: usize) -> (r: Self)
        requires
            4 * count <= usize::MAX,
        ensures
            r@ == self@.push(first(t@, count as nat)),
    {
        self.entry(
            Binding::Storage { buffer: t.buffer, offset: t.offset, size: (count * 4) as u64 },
        )
    }

    /// Also binds four words of parameters.
    pub fn params(self, a: u32, b: u32, c: u32, d: u32) -> (r: Self)
        ensures
            r@ == self@.push(params(a, b, c, d)),
    {
        let words: Vec<u32> = vec![a, b, c, d];
        assert(words@ =~= seq![a, b, c, d]);
        self.entry(Binding::Uniform { words, size: 16 })
    }

    /// Also binds a block of words as `size` bytes.
    pub fn block(self, words: Vec<u32>, size: u64) -> (r: Self)
        ensures
            r@ == self@.push(BindingView::Uniform { words: words@, size }),
    {
        self.entry(Binding::Uniform { words, size })
    }
}

// ------------------------------------------------------------------- commands

/// One kernel launch.
#[verifier::ext_equal]
pub struct DispatchView {
    pub label: Seq<char>,
    pub kernel: Kernel,
    pub table: Seq<BindingView>,
    pub grid: (u32, u32, u32),
}

/// One kernel launch: what it is called in reports, which kernel, what it binds and
/// how many workgroups it takes along each axis.
#[derive(Debug)]
pub struct Dispatch {
    pub label: &'static str,
    pub kernel: Kernel,
    pub table: Table,
    pub grid: (u32, u32, u32),
}

impl View for Dispatch {
    type V = DispatchView;

    open spec fn view(&self) -> DispatchView {
        DispatchView {
            label: self.label@,
            kernel: self.kernel,
            table: self.table@,
            grid: self.grid,
        }
    }
}

/// Data the host supplies when a pass runs.
#[derive(Debug, Clone, Copy, PartialEq, Eq, Structural)]
pub enum HostInput {
    /// The normalised spectrogram, `(batch, channels, bins, frames)`.
    Spectrogram,
    /// The normalised waveform, `(batch, channels, samples)`.
    Waveform,
    /// The position embedding of the spectrogram's tokens.
    SpectrogramPositions,
    /// The position embedding of the waveform's tokens.
    WaveformPositions,
}

/// One command of a pass.
#[verifier::ext_equal]
pub enum CommandView {
    Alloc { bytes: u64, label: Seq<char> },
    Upload { bytes: u64, words: Seq<u32>, label: Seq<char> },
    Input { bytes: u64, input: HostInput, dedicated: bool, label: Seq<char> },
    Dispatch(DispatchView),
    Trace { asked: Seq<char>, name: Seq<char>, tensor: TensorView },
    Readback { tensor: TensorView },
}

/// One command of a pass. A command that makes a buffer gives it its own place in
/// the pass as a number.
#[derive(Debug)]
pub enum Command {
    /// A buffer of `bytes` bytes, recycled where one fits.
    Alloc { bytes: u64, label: String },
    /// A buffer that holds `words`.
    Upload { bytes: u64, words: Vec<u32>, label: String },
    /// A buffer that holds what the host supplies. A dedicated one is never a
    /// recycled one: launches before it may still read what a recycled one held.
    Input { bytes: u64, input: HostInput, dedicated: bool, label: String },
    Dispatch(Dispatch),
    /// A point where a tensor is observed as `name`, if `asked` is wanted.
    Trace { asked: String, name: String, tensor: DevTensor },
    /// A tensor the host reads when the pass is done.
    Readback { tensor: DevTensor },
}

impl View for Command {
    type V = CommandView;

    open spec fn view(&self) -> CommandView {
        match self {
            Command::Alloc { bytes, label } => CommandView::Alloc { bytes: *bytes, label: label@ },
            Command::Upload { bytes, words, label } => CommandView::Upload {
                bytes: *bytes,
                words: words@,
                label: label@,
            },
            Command::Input { bytes, input, dedicated, label } => CommandView::Input {
                bytes: *bytes,
                input: *input,
                dedicated: *dedicated,
                label: label@,
            },
            Command::Dispatch(d) => CommandView::Dispatch(d@),
            Command::Trace { asked, name, tensor } => CommandView::Trace {
                asked: asked@,
                name: name@,
                tensor: tensor@,
            },
            Command::Readback { tensor } => CommandView::Readback { tensor: tensor@ },
        }
    }
}

// ----------------------------------------------------------------------- plans

/// A buffer's size for a request of `bytes`: at least 4, rounded up to 256 so it
/// can back a uniform binding as well as a storage one.
pub open spec fn aligned(bytes: nat) -> nat {
    let wanted = if bytes < 4 {
        4
    } else {
        bytes
    };
    ((wanted + 255) / 256) * 256
}

/// Why a buffer of `size` bytes is not to be had.
pub open spec fn limit_fault(size: u64, limit: u64, label: Seq<char>) -> Detail<Seq<char>> {
    Detail::BufferLimit { label, wanted: size / MIB, limit: limit / MIB }
}

/// Why a buffer of `size` bytes is not to be had.
pub fn limit_fault_of(size: u64, limit: u64, label: &str) -> (r: Detail)
    ensures
        r@ == limit_fault(size, limit, label@),
{
    Detail::BufferLimit { label: String::from_str(label), wanted: size / MIB, limit: limit / MIB }
}

/// A pass being planned: the commands so far, the largest buffer the device gives,
/// and the error that stopped the planning, if one did. Every step below does
/// nothing to a stopped plan.
#[verifier::ext_equal]
pub struct Plan {
    pub id: u32,
    pub limit: u64,
    pub commands: Seq<CommandView>,
    pub fault: Option<ErrorView>,
}

impl Plan {
    pub open spec fn fail(self, e: ErrorView) -> Plan {
        if self.fault is Some {
            self
        } else {
            Plan { fault: Some(e), ..self }
        }
    }

    /// Stops with `e` unless `holds`.
    pub open spec fn require(self, holds: bool, e: ErrorView) -> Plan {
        if holds {
            self
        } else {
            self.fail(e)
        }
    }

    pub open spec fn command(self, c: CommandView) -> Plan {
        if self.fault is Some {
            self
        } else {
            Plan { commands: self.commands.push(c), ..self }
        }
    }

    /// Records one kernel launch.
    pub open spec fn launch(
        self,
        label: Seq<char>,
        kernel: Kernel,
        table: Seq<BindingView>,
        grid: (u32, u32, u32),
    ) -> Plan {
        self.command(CommandView::Dispatch(DispatchView { label, kernel, table, grid }))
    }

    /// Stops where a buffer of `bytes` bytes is more than the device gives.
    pub open spec fn within_limit(self, bytes: nat, label: Seq<char>) -> Plan {
        self.require(
            aligned(bytes) <= self.limit,
            Error::GpuOf(limit_fault(aligned(bytes) as u64, self.limit, label)),
        )
    }

    /// Asks for a buffer.
    pub open spec fn allocate(self, bytes: nat, label: Seq<char>) -> Plan {
        self.within_limit(bytes, label).command(CommandView::Alloc { bytes: aligned(bytes) as u64, label })
    }

    /// Asks for a buffer that holds `shape`.
    pub open spec fn tensor(self, shape: Seq<usize>, label: Seq<char>) -> Plan {
        self.allocate(4 * tensor::elements(shape), label)
    }

    /// The tensor the next allocation gives.
    pub open spec fn fresh(self, shape: Seq<usize>) -> TensorView {
        TensorView {
            buffer: BufferId { plan: self.id, index: self.commands.len() as usize },
            offset: 0,
            shape,
        }
    }

    /// Stops where a window of `t` cannot be taken.
    pub open spec fn slice(self, t: TensorView, start: int, shape: Seq<usize>) -> Plan {
        match DevTensor::slice_spec(t, start as nat, shape) {
            Ok(_) => self,
            Err(e) => self.fail(e),
        }
    }

    /// Observes `t` as `name`.
    pub open spec fn trace(self, name: Seq<char>, t: TensorView) -> Plan {
        self.trace_with(name, name, t)
    }

    /// Observes `t` as `name`, if `asked` is wanted.
    pub open spec fn trace_with(self, asked: Seq<char>, name: Seq<char>, t: TensorView) -> Plan {
        self.command(CommandView::Trace { asked, name, tensor: t })
    }

    /// Stops where `t` cannot take another shape.
    pub open spec fn reshape(self, t: TensorView, shape: Seq<usize>) -> Plan {
        self.require(
            tensor::elements(shape) == t.len(),
            Error::ShapeOf(tensor::reshape_fault(t.shape, shape)),
        )
    }
}

/// `t` under another shape; its buffer's start where the lengths differ.
pub open spec fn reshaped(t: TensorView, shape: Seq<usize>) -> TensorView {
    TensorView {
        buffer: t.buffer,
        offset: if tensor::elements(shape) == t.len() {
            t.offset
        } else {
            0
        },
        shape,
    }
}

/// The window of `shape` from element `start` of `t` on.
pub open spec fn window(t: TensorView, start: int, shape: Seq<usize>) -> TensorView {
    TensorView { buffer: t.buffer, offset: (t.offset + 4 * start) as u64, shape }
}

/// A one-axis window.
pub fn window_of(t: &DevTensor, start: usize, len: usize) -> (r: Result<DevTensor, Error>)
    requires
        t.wf(),
        start + len <= usize::MAX,
    ensures
        match r {
            Ok(w) => {
                &&& DevTensor::slice_spec(t@, start as nat, seq![len]) is Ok
                &&& w@ == window(t@, start as int, seq![len])
                &&& w.wf()
                &&& w@.len() == len
            },
            Err(e) => DevTensor::slice_spec(t@, start as nat, seq![len]) == Err::<
                TensorView,
                ErrorView,
            >(e@),
        },
{
    let shape: Vec<usize> = vec![len];
    proof {
        assert(shape@ =~= seq![len]);
        tensor::lemma_axes_1(shape@);
    }
    t.slice(start, shape)
}

/// A plan after a step that gave `r`.
pub open spec fn settled<T>(plan: Plan, r: Result<T, Error>) -> Plan {
    match r {
        Ok(_) => plan,
        Err(e) => plan.fail(e@),
    }
}

/// The commands of a list of commands.
pub open spec fn commands_view(list: Seq<Command>) -> Seq<CommandView> {
    Seq::new(list.len(), |i: int| list[i]@)
}

/// Collects the commands of one pass.
#[derive(Debug)]
pub struct Recorder {
    id: u32,
    limit: u64,
    commands: Vec<Command>,
}

impl View for Recorder {
    type V = Plan;

    closed spec fn view(&self) -> Plan {
        Plan {
            id: self.id,
            limit: self.limit,
            commands: commands_view(self.commands@),
            fault: None,
        }
    }
}

/// Whether a request of `bytes` bytes can be rounded up.
pub open spec fn roundable(bytes: nat) -> bool {
    bytes + 255 <= usize::MAX
}

/// Whether a tensor of `shape` can be asked for.
pub open spec fn askable(shape: Seq<usize>) -> bool {
    tensor::countable(shape) && roundable(4 * tensor::elements(shape))
}

pub(crate) fn aligned_of(bytes: u64) -> (r: u64)
    requires
        roundable(bytes as nat),
    ensures
        r == aligned(bytes as nat),
{
    let wanted: u64 = if bytes < 4 {
        4
    } else {
        bytes
    };
    (wanted + 255) / 256 * 256
}

impl Recorder {
    /// Every recorder is a plan that nothing has stopped.
    pub proof fn lemma_running(&self)
        ensures
            self@.fault is None,
    {
    }

    /// An empty pass. `id` tells its buffers from other passes', `limit` is the
    /// largest buffer the device gives.
    pub fn new(id: u32, limit: u64) -> (r: Self)
        ensures
            r@ == (Plan { id, limit, commands: Seq::empty(), fault: None }),
    {
        let r = Recorder { id, limit, commands: Vec::new() };
        assert(r@.commands =~= Seq::<CommandView>::empty());
        r
    }

    /// The commands, in order.
    pub fn into_commands(self) -> (r: Vec<Command>)
        ensures
            commands_view(r@) == self@.commands,
    {
        self.commands
    }

    /// Kernel launches recorded so far.
    pub open spec fn launches(commands: Seq<CommandView>) -> nat
        decreases commands.len(),
    {
        if commands.len() == 0 {
            0
        } else {
            Self::launches(commands.drop_last()) + if commands.last() is Dispatch {
                1nat
            } else {
                0nat
            }
        }
    }

    /// How many kernel launches are recorded.
    pub fn dispatches(&self) -> (r: usize)
        ensures
            r == Self::launches(self@.commands),
    {
        let mut count: usize = 0;
        let mut i: usize = 0;
        while i < self.commands.len()
            invariant
                i <= self.commands@.len(),
                count <= i,
                self@.commands == commands_view(self.commands@),
                count == Self::launches(self@.commands.take(i as int)),
            decreases self.commands@.len() - i,
        {
            proof {
                let next = self@.commands.take(i as int + 1);
                assert(next.drop_last() =~= self@.commands.take(i as int));
                assert(next.last() == self.commands@[i as int]@);
            }
            match &self.commands[i] {
                Command::Dispatch(_) => {
                    count += 1;
                },
                _ => {},
            }
            i += 1;
        }
        assert(self@.commands.take(i as int) =~= self@.commands);
        count
    }

    fn push(&mut self, command: Command)
        ensures
            final(self)@ == old(self)@.command(command@),
    {
        self.commands.push(command);
        assert(self@.commands =~= old(self)@.commands.push(command@));
    }

    /// Records one kernel launch.
    pub fn dispatch(
        &mut self,
        label: &'static str,
        kernel: Kernel,
        table: Table,
        grid: (u32, u32, u32),
    )
        ensures
            final(self)@ == old(self)@.launch(label@, kernel, table@, grid),
    {
        self.push(Command::Dispatch(Dispatch { label, kernel, table, grid }));
    }

    fn check_limit(&self, bytes: u64, label: &str) -> (r: Result<u64, Error>)
        requires
            roundable(bytes as nat),
        ensures
            match r {
                Ok(size) => {
                    &&& size == aligned(bytes as nat)
                    &&& self@.within_limit(bytes as nat, label@) == self@
                },
                Err(e) => self@.within_limit(bytes as nat, label@) == self@.fail(e@) && aligned(
                    bytes as nat,
                ) > self@.limit,
            },
    {
        let size: u64 = aligned_of(bytes);
        if size > self.limit {
            return Err(Error::GpuOf(limit_fault_of(size, self.limit, label)));
        }
        Ok(size)
    }

    /// Asks for a buffer of `bytes` bytes.
    pub fn allocate(&mut self, bytes: u64, label: &str) -> (r: Result<DevTensor, Error>)
        requires
            roundable(bytes as nat),
        ensures
            settled(final(self)@, r) == old(self)@.allocate(bytes as nat, label@),
            r matches Ok(t) ==> {
                &&& t@ == old(self)@.fresh(seq![(bytes / 4) as usize])
                &&& t.wf()
                &&& t@.len() == bytes / 4
            },
    {
        let size: u64 = match self.check_limit(bytes, label) {
            Ok(size) => size,
            Err(e) => {
                return Err(e);
            },
        };
        let buffer = BufferId { plan: self.id, index: self.commands.len() };
        self.push(Command::Alloc { bytes: size, label: String::from_str(label) });
        let shape: Vec<usize> = vec![(bytes / 4) as usize];
        proof {
            assert(shape@ =~= seq![(bytes / 4) as usize]);
            tensor::lemma_axes_1(shape@);
        }
        Ok(DevTensor { buffer, offset: 0, shape })
    }

    /// Asks for a buffer that holds `shape`.
    pub fn tensor(&mut self, shape: Vec<usize>, label: &str) -> (r: Result<DevTensor, Error>)
        requires
            askable(shape@),
        ensures
            settled(final(self)@, r) == old(self)@.tensor(shape@, label@),
            r matches Ok(t) ==> t@ == old(self)@.fresh(shape@) && t.wf(),
    {
        let bytes: u64 = (tensor::elements_of(&shape) * 4) as u64;
        match self.allocate(bytes, label) {
            Ok(t) => Ok(DevTensor { buffer: t.buffer, offset: 0, shape }),
            Err(e) => Err(e),
        }
    }

    /// Asks for a buffer of `shape` that holds `words`.
    pub fn upload(&mut self, shape: Vec<usize>, words: Vec<u32>, label: &str) -> (r: Result<
        DevTensor,
        Error,
    >)
        requires
            askable(shape@),
            4 * words@.len() <= usize::MAX,
        ensures
            settled(final(self)@, r) == old(self)@.upload(shape@, words@, label@),
            r matches Ok(t) ==> t@ == old(self)@.fresh(shape@) && t.wf(),
    {
        let len: usize = tensor::elements_of(&shape);
        let bytes: u64 = (len * 4) as u64;
        let size: u64 = match self.check_limit(bytes, label) {
            Ok(size) => size,
            Err(e) => {
                return Err(e);
            },
        };
        if words.len() > len {
            return Err(
                Error::ShapeOf(
                    Detail::UploadSize {
                        label: String::from_str(label),
                        bytes: words.len() * 4,
                        shape: text::list_text(&shape),
                    },
                ),
            );
        }
        let buffer = BufferId { plan: self.id, index: self.commands.len() };
        self.push(Command::Upload { bytes: size, words, label: String::from_str(label) });
        Ok(DevTensor { buffer, offset: 0, shape })
    }

    /// Asks for a buffer of `shape` that the host fills when the pass runs.
    pub fn input(
        &mut self,
        shape: Vec<usize>,
        input: HostInput,
        dedicated: bool,
        label: &str,
    ) -> (r: Result<DevTensor, Error>)
        requires
            askable(shape@),
        ensures
            settled(final(self)@, r) == old(self)@.input(shape@, input, dedicated, label@),
            r matches Ok(t) ==> t@ == old(self)@.fresh(shape@) && t.wf(),
    {
        let bytes: u64 = (tensor::elements_of(&shape) * 4) as u64;
        let size: u64 = match self.check_limit(bytes, label) {
            Ok(size) => size,
            Err(e) => {
                return Err(e);
            },
        };
        let buffer = BufferId { plan: self.id, index: self.commands.len() };
        self.push(
            Command::Input { bytes: size, input, dedicated, label: String::from_str(label) },
        );
        Ok(DevTensor { buffer, offset: 0, shape })
    }

    /// The number of the next command's buffer.
    pub fn next_buffer(&self) -> (r: BufferId)
        ensures
            r == (BufferId { plan: self@.id, index: self@.commands.len() as usize }),
    {
        BufferId { plan: self.id, index: self.commands.len() }
    }

    /// Observes `t` as `name`, if `asked` is wanted.
    pub fn trace(&mut self, asked: String, name: String, t: &DevTensor)
        ensures
            final(self)@ == old(self)@.trace_with(asked@, name@, t@),
    {
        self.push(Command::Trace { asked, name, tensor: t.clone() });
    }

    /// Has the host read `t` when the pass is done.
    pub fn readback(&mut self, t: &DevTensor)
        ensures
            final(self)@ == old(self)@.command(CommandView::Readback { tensor: t@ }),
    {
        self.push(Command::Readback { tensor: t.clone() });
    }
}

impl Plan {
    /// Asks for a buffer of `shape` that holds `words`, which must fit it.
    pub open spec fn upload(self, shape: Seq<usize>, words: Seq<u32>, label: Seq<char>) -> Plan {
        let len = tensor::elements(shape);
        self.within_limit(4 * len, label).require(
            words.len() <= len,
            Error::ShapeOf(
                Detail::UploadSize {
                    label,
                    bytes: (4 * words.len()) as usize,
                    shape: text::listed(shape),
                },
            ),
        ).command(CommandView::Upload { bytes: aligned(4 * len) as u64, words, label })
    }

    /// Asks for a buffer of `shape` that the host fills when the pass runs.
    pub open spec fn input(
        self,
        shape: Seq<usize>,
        input: HostInput,
        dedicated: bool,
        label: Seq<char>,
    ) -> Plan {
        let bytes = 4 * tensor::elements(shape);
        self.within_limit(bytes, label).command(
            CommandView::Input { bytes: aligned(bytes) as u64, input, dedicated, label },
        )
    }
}

} // verus!
