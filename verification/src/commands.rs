//! A model of the command-recording context that drawing writes into.
//!
//! At draw time the store does not touch the device itself: it appends bind
//! and draw commands to a recorder, and the platform layer submits them.
//! Keeping the recorded sequence explicit makes the draw path checkable: a
//! store with no visible instances must record nothing.

use vstd::prelude::*;

use crate::allocator::BufferHandle;

verus! {

/// One command as the draw path records it.
#[derive(Clone, Copy, Debug, PartialEq, Eq, Structural)]
pub enum RecordedCommand {
    /// Bind `buffer` as the vertex input at `binding`.
    BindVertexBuffer { binding: u32, buffer: BufferHandle },
    /// Bind `buffer` as the index input.
    BindIndexBuffer { buffer: BufferHandle },
    /// Draw `index_count` indices for `instance_count` instances.
    DrawIndexed { index_count: u32, instance_count: u32 },
}

/// The sequence of commands recorded for one frame.
pub struct CommandRecorder {
    commands: Vec<RecordedCommand>,
}

impl CommandRecorder {
    /// The commands recorded so far, in order.
    pub closed spec fn commands(&self) -> Seq<RecordedCommand> {
        self.commands@
    }

    /// An empty recording.
    pub fn new() -> (r: CommandRecorder)
        ensures
            r.commands() == Seq::<RecordedCommand>::empty(),
    {
        CommandRecorder { commands: Vec::new() }
    }

    /// Appends one command.
    pub fn record(&mut self, command: RecordedCommand)
        ensures
            final(self).commands() == old(self).commands().push(command),
    {
        self.commands.push(command);
    }

    /// Reads the recording back.
    pub fn recorded(&self) -> (r: &Vec<RecordedCommand>)
        ensures
            r@ == self.commands(),
    {
        &self.commands
    }
}

} // verus!
