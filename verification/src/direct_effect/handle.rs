//! The control side of the bridge.

use vstd::prelude::*;
use crate::direct_effect::command::{Command, DirectSoundPath, ReverbParameters};
use crate::direct_effect::queue::CommandSender;

verus! {

/// The only way to change the parameters of a running effect: each call
/// offers one command to the render side and returns at once.
pub struct DirectEffectHandle {
    pub command_producer: CommandSender,
}

impl View for DirectEffectHandle {
    type V = Seq<Command>;

    /// The commands that the handle has had accepted so far, oldest first.
    open spec fn view(&self) -> Seq<Command> {
        self.command_producer@
    }
}

impl DirectEffectHandle {
    /// The number of commands that the queue to the render side holds at most.
    pub open spec fn capacity(&self) -> nat {
        self.command_producer.capacity()
    }

    /// What a call that offered `command` has left behind, and when it had
    /// to succeed: an accepted command stands behind all earlier ones; a
    /// rejected one has come back unchanged and has left no trace; and no
    /// command is rejected before the queue's capacity has been accepted.
    pub open spec fn offered(
        before: Self,
        after: Self,
        command: Command,
        sent: Result<(), Command>,
    ) -> bool {
        &&& after.capacity() == before.capacity()
        &&& sent is Ok ==> after@ == before@.push(command)
        &&& sent is Err ==> sent->Err_0 == command && after@ == before@
        &&& before@.len() < before.capacity() ==> sent is Ok
    }

    /// Offers `command` to the render side. If the queue has no room at that
    /// moment, the command comes back at once, unchanged.
    pub fn send(&mut self, command: Command) -> (sent: Result<(), Command>)
        ensures
            Self::offered(*old(self), *final(self), command, sent),
    {
        self.command_producer.send(command)
    }

    /// Asks the render side to replace its direct path by `path`.
    pub fn set_direct_sound_path(&mut self, path: DirectSoundPath) -> (sent: Result<(), Command>)
        ensures
            Self::offered(*old(self), *final(self), Command::DirectSoundPath(path), sent),
    {
        self.command_producer.send(Command::DirectSoundPath(path))
    }

    /// Asks the render side to replace its reverberation parameters by `reverb`.
    pub fn set_reverb_parameters(&mut self, reverb: ReverbParameters) -> (sent: Result<
        (),
        Command,
    >)
        ensures
            Self::offered(*old(self), *final(self), Command::ReverbParameters(reverb), sent),
    {
        self.command_producer.send(Command::ReverbParameters(reverb))
    }

    /// Asks the render side to toggle its bypass.
    pub fn toggle_bypass(&mut self) -> (sent: Result<(), Command>)
        ensures
            Self::offered(*old(self), *final(self), Command::ToggleBypass, sent),
    {
        self.command_producer.send(Command::ToggleBypass)
    }
}

} // verus!
