//! The render side of the bridge.

use vstd::prelude::*;
use crate::direct_effect::builder::DirectEffectBuilder;
use crate::direct_effect::command::{apply_all, apply_command, Command, DirectEffectParameters};
use crate::direct_effect::queue::{CommandReceiver, COMMAND_CAPACITY};

verus! {

/// The effect as the render thread holds it: the live parameters and the
/// receiving half of the command queue.
pub struct DirectEffectWrapped {
    parameters: DirectEffectParameters,
    command_consumer: CommandReceiver,
}

impl View for DirectEffectWrapped {
    type V = DirectEffectParameters;

    /// The live parameters.
    closed spec fn view(&self) -> DirectEffectParameters {
        self.parameters
    }
}

impl DirectEffectWrapped {
    /// The render side of an effect that starts with the builder's parameters
    /// and takes its updates from `command_consumer`, beginning with what
    /// was queued when that half was split off.
    pub fn new(builder: DirectEffectBuilder, command_consumer: CommandReceiver) -> (effect: Self)
        ensures
            effect@ == builder.parameters,
            effect.pending() == command_consumer@,
    {
        DirectEffectWrapped { parameters: builder.parameters, command_consumer }
    }

    /// The live parameters.
    pub fn parameters(&self) -> (parameters: DirectEffectParameters)
        ensures
            parameters == self@,
    {
        self.parameters
    }

    /// The commands that the queue held when the receiving half was split
    /// off and that the effect has not applied yet, oldest first. They are
    /// certain to be in the queue; what the control side has sent since comes
    /// behind them.
    pub closed spec fn pending(&self) -> Seq<Command> {
        self.command_consumer@
    }

    /// Takes the commands that have arrived out of the queue and applies
    /// them to the live parameters in the order in which they arrived.
    /// Returns how many it applied. It stops when the queue is empty, or
    /// after `COMMAND_CAPACITY` commands, whatever the control side sends
    /// meanwhile, and neither waits nor allocates.
    ///
    /// The commands that were certain to be in the queue are the first to
    /// be applied, in their order, and all of them are unless the limit cuts
    /// them short. What is applied after them is what the control side sent.
    pub fn on_start_processing(&mut self) -> (applied: usize)
        ensures
            applied <= COMMAND_CAPACITY,
            old(self).pending().len() <= applied || applied == COMMAND_CAPACITY,
            final(self).pending() == old(self).pending().skip(
                if applied <= old(self).pending().len() {
                    applied as int
                } else {
                    old(self).pending().len() as int
                },
            ),
            exists|commands: Seq<Command>|
                commands.len() == applied && agree(commands, old(self).pending()) && final(self)@
                    == #[trigger] apply_all(old(self)@, commands),
    {
        let ghost first = self.pending();
        let ghost mut commands: Seq<Command> = Seq::empty();
        let mut applied: usize = 0;
        let mut more = true;
        proof {
            assert(first.skip(0) =~= first);
        }
        while more && applied < COMMAND_CAPACITY
            invariant
                applied <= COMMAND_CAPACITY,
                commands.len() == applied,
                first == old(self).pending(),
                agree(commands, first),
                !more ==> first.len() <= applied,
                self.pending() == first.skip(
                    if applied <= first.len() {
                        applied as int
                    } else {
                        first.len() as int
                    },
                ),
                self.parameters == apply_all(old(self).parameters, commands),
            decreases COMMAND_CAPACITY - applied + if more { 1int } else { 0int },
        {
            let ghost front = self.pending();
            match self.command_consumer.receive() {
                Some(command) => {
                    proof {
                        assert(commands.push(command).drop_last() =~= commands);
                        if applied < first.len() {
                            assert(front[0] == first[applied as int]);
                            assert(front.drop_first() =~= first.skip(applied + 1));
                        } else {
                            assert(front.len() == 0);
                            assert(first.skip(first.len() as int) =~= front);
                        }
                        commands = commands.push(command);
                    }
                    self.parameters = apply_command(self.parameters, command);
                    applied += 1;
                },
                None => {
                    more = false;
                },
            }
        }
        proof {
            assert(self@ == apply_all(old(self)@, commands));
        }
        applied
    }
}

/// `commands` and `pending` hold the same command at every position that
/// both have.
pub open spec fn agree(commands: Seq<Command>, pending: Seq<Command>) -> bool {
    forall|i: int| 0 <= i < commands.len() && i < pending.len() ==> commands[i] == pending[i]
}

} // verus!
