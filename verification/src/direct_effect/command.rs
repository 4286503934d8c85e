//! The commands that cross the bridge and the state they act on.
//!
//! Every physical quantity is held as the raw 32-bit pattern of its IEEE 754
//! single-precision value. This crate moves the patterns and never
//! interprets them.

use vstd::prelude::*;

verus! {

/// The number of frequency bands that acoustic quantities are resolved into.
pub const NUM_BANDS: usize = 3;

/// How sound reaches the listener from one source along the straight line.
#[derive(Clone, Copy, Debug, PartialEq, Eq)]
pub struct DirectSoundPath {
    /// The blocked fraction of the source, between zero and one.
    pub occlusion: u32,
    /// Per band, the factor by which occluders let sound through.
    pub transmission: [u32; NUM_BANDS],
    /// The distance between source and listener.
    pub distance: u32,
    /// Per band, the gain that remains after absorption by air.
    pub air_absorption: [u32; NUM_BANDS],
}

/// How reverberation decays in the listener's room.
#[derive(Clone, Copy, Debug, PartialEq, Eq)]
pub struct ReverbParameters {
    /// Per band, the time in which reverberant energy falls by 60 dB.
    pub decay_time: [u32; NUM_BANDS],
    /// Per band, the gain of the reverberant energy.
    pub gain: [u32; NUM_BANDS],
}

/// One update for the render side.
#[derive(Clone, Copy, Debug, PartialEq, Eq)]
pub enum Command {
    /// Replace the direct path.
    DirectSoundPath(DirectSoundPath),
    /// Replace the reverberation parameters.
    ReverbParameters(ReverbParameters),
    /// Switch bypassing on if it is off, and off if it is on.
    ToggleBypass,
}

/// The live state of the render side.
#[derive(Clone, Copy, Debug, PartialEq, Eq)]
pub struct DirectEffectParameters {
    pub direct_sound_path: DirectSoundPath,
    pub reverb: ReverbParameters,
    pub bypass: bool,
}

/// The state after `command` has been applied to `parameters`.
pub open spec fn apply(parameters: DirectEffectParameters, command: Command) -> DirectEffectParameters {
    match command {
        Command::DirectSoundPath(path) => DirectEffectParameters {
            direct_sound_path: path,
            ..parameters
        },
        Command::ReverbParameters(reverb) => DirectEffectParameters { reverb, ..parameters },
        Command::ToggleBypass => DirectEffectParameters { bypass: !parameters.bypass, ..parameters },
    }
}

/// The state after `commands` have been applied to `parameters`, first to last.
pub open spec fn apply_all(
    parameters: DirectEffectParameters,
    commands: Seq<Command>,
) -> DirectEffectParameters
    decreases commands.len(),
{
    if commands.len() == 0 {
        parameters
    } else {
        apply(apply_all(parameters, commands.drop_last()), commands.last())
    }
}

/// Applies one command to the live state.
pub fn apply_command(parameters: DirectEffectParameters, command: Command) -> (updated:
    DirectEffectParameters)
    ensures
        updated == apply(parameters, command),
{
    match command {
        Command::DirectSoundPath(path) => DirectEffectParameters {
            direct_sound_path: path,
            reverb: parameters.reverb,
            bypass: parameters.bypass,
        },
        Command::ReverbParameters(reverb) => DirectEffectParameters {
            direct_sound_path: parameters.direct_sound_path,
            reverb,
            bypass: parameters.bypass,
        },
        Command::ToggleBypass => DirectEffectParameters {
            direct_sound_path: parameters.direct_sound_path,
            reverb: parameters.reverb,
            bypass: !parameters.bypass,
        },
    }
}

} // verus!
