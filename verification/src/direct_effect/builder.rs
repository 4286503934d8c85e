//! Where a bridge is made.

use vstd::prelude::*;
use crate::direct_effect::command::{Command, DirectEffectParameters};
use crate::direct_effect::effect::DirectEffectWrapped;
use crate::direct_effect::handle::DirectEffectHandle;
use crate::direct_effect::queue::{CommandQueue, COMMAND_CAPACITY};

verus! {

/// Configures a direct effect: the parameters that it starts with.
#[derive(Debug, Copy, Clone, PartialEq)]
pub struct DirectEffectBuilder {
    pub parameters: DirectEffectParameters,
}

impl DirectEffectBuilder {
    /// Makes the two sides of one effect: the render side, which starts with
    /// the builder's parameters, and the handle through which the control
    /// side updates them. The two share one empty queue of
    /// `COMMAND_CAPACITY` commands, so nothing waits for the render side and
    /// the handle has had nothing accepted yet.
    pub fn build(self) -> (sides: (DirectEffectWrapped, DirectEffectHandle))
        ensures
            sides.0@ == self.parameters,
            sides.0.pending() == Seq::<Command>::empty(),
            sides.1@ == Seq::<Command>::empty(),
            sides.1.capacity() == COMMAND_CAPACITY,
    {
        let (command_producer, command_consumer) = CommandQueue::new().split();
        (DirectEffectWrapped::new(self, command_consumer), DirectEffectHandle { command_producer })
    }
}

} // verus!
