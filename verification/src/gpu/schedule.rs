//! When a pass is done with its buffers.
//!
//! A pass names buffers by the command that made them. Whoever runs it may let go of a
//! buffer right after the last command that names it: the queue is in order, so what
//! comes later cannot disturb what was recorded before.

use vstd::prelude::*;

use crate::gpu::recorder;
use crate::gpu::recorder::{Binding, BindingView, Command, CommandView};
use crate::gpu::tensor::BufferId;

verus! {

/// Whether a binding names the buffer.
pub open spec fn binds(binding: BindingView, buffer: BufferId) -> bool {
    binding matches BindingView::Storage { buffer: b, .. } && b == buffer
}

/// Whether a command names the buffer.
pub open spec fn names(command: CommandView, buffer: BufferId) -> bool {
    match command {
        CommandView::Dispatch(d) => exists|k: int|
            0 <= k < d.table.len() && binds(#[trigger] d.table[k], buffer),
        CommandView::Trace { tensor, .. } => tensor.buffer == buffer,
        CommandView::Readback { tensor } => tensor.buffer == buffer,
        _ => false,
    }
}

/// Whether a command names the buffer.
pub fn names_buffer(command: &Command, buffer: BufferId) -> (r: bool)
    ensures
        r == names(command@, buffer),
{
    match command {
        Command::Dispatch(d) => {
            let mut k: usize = 0;
            while k < d.table.entries.len()
                invariant
                    k <= d.table.entries@.len(),
                    command@ == CommandView::Dispatch(d@),
                    forall|j: int| 0 <= j < k ==> !binds(#[trigger] d.table@[j], buffer),
                decreases d.table.entries@.len() - k,
            {
                assert(d.table@[k as int] == d.table.entries@[k as int]@);
                match &d.table.entries[k] {
                    Binding::Storage { buffer: b, offset: _, size: _ } => {
                        if *b == buffer {
                            assert(binds(d@.table[k as int], buffer));
                            return true;
                        }
                    },
                    Binding::Uniform { words: _, size: _ } => {},
                }
                k += 1;
            }
            false
        },
        Command::Trace { asked: _, name: _, tensor } => tensor.buffer == buffer,
        Command::Readback { tensor } => tensor.buffer == buffer,
        _ => false,
    }
}

/// Whether `at` is the last place of a pass that has to do with the buffer that the
/// command at `made` makes.
pub open spec fn is_last_use(commands: Seq<CommandView>, plan: u32, made: int, at: int) -> bool {
    let buffer = BufferId { plan, index: made as usize };
    &&& made <= at < commands.len()
    &&& at == made || names(commands[at], buffer)
    &&& forall|i: int| at < i < commands.len() ==> !names(#[trigger] commands[i], buffer)
}

/// For each command, the last place that has to do with the buffer it makes, if it
/// makes one.
pub fn last_uses(commands: &Vec<Command>, plan: u32) -> (r: Vec<usize>)
    ensures
        r@.len() == commands@.len(),
        forall|made: int|
            0 <= made < commands@.len() ==> is_last_use(
                recorder::commands_view(commands@),
                plan,
                made,
                (#[trigger] r@[made]) as int,
            ),
{
    let ghost list = recorder::commands_view(commands@);
    let mut r: Vec<usize> = Vec::new();
    let mut made: usize = 0;
    while made < commands.len()
        invariant
            made <= commands@.len(),
            list == recorder::commands_view(commands@),
            r@.len() == made,
            forall|m: int| 0 <= m < made ==> is_last_use(list, plan, m, (#[trigger] r@[m]) as int),
        decreases commands@.len() - made,
    {
        let buffer = BufferId { plan, index: made };
        let mut at: usize = commands.len() - 1;
        while at > made && !names_buffer(&commands[at], buffer)
            invariant
                made <= at < commands@.len(),
                list == recorder::commands_view(commands@),
                forall|i: int|
                    at < i < commands@.len() ==> !names(#[trigger] list[i], buffer),
            decreases at,
        {
            assert(list[at as int] == commands@[at as int]@);
            at -= 1;
        }
        assert(list[at as int] == commands@[at as int]@);
        r.push(at);
        made += 1;
    }
    r
}

/// There is one last use.
pub proof fn law_the_last_use_is_one(
    commands: Seq<CommandView>,
    plan: u32,
    made: int,
    a: int,
    b: int,
)
    requires
        0 <= made,
        is_last_use(commands, plan, made, a),
        is_last_use(commands, plan, made, b),
    ensures
        a == b,
{
    if a < b {
        assert(!names(commands[b], BufferId { plan, index: made as usize }));
    } else if b < a {
        assert(!names(commands[a], BufferId { plan, index: made as usize }));
    }
}

} // verus!
