use phonon::direct_effect::builder::DirectEffectBuilder;
use phonon::direct_effect::command::{
    apply_command, Command, DirectEffectParameters, DirectSoundPath, ReverbParameters, NUM_BANDS,
};
use phonon::direct_effect::effect::DirectEffectWrapped;
use phonon::direct_effect::queue::{CommandQueue, COMMAND_CAPACITY};

fn path(occlusion: f32, distance: f32) -> DirectSoundPath {
    DirectSoundPath {
        occlusion: occlusion.to_bits(),
        transmission: [0.5f32.to_bits(); NUM_BANDS],
        distance: distance.to_bits(),
        air_absorption: [1.0f32.to_bits(); NUM_BANDS],
    }
}

fn reverb(decay: f32) -> ReverbParameters {
    ReverbParameters { decay_time: [decay.to_bits(); NUM_BANDS], gain: [0.25f32.to_bits(); NUM_BANDS] }
}

fn initial() -> DirectEffectParameters {
    DirectEffectParameters { direct_sound_path: path(0.0, 1.0), reverb: reverb(0.1), bypass: false }
}

fn numbered(i: usize) -> Command {
    Command::DirectSoundPath(path(0.0, i as f32))
}

#[test]
fn capacity_is_thirty_two() {
    assert_eq!(COMMAND_CAPACITY, 32);
}

#[test]
fn new_queue_is_empty() {
    let mut queue = CommandQueue::new();
    assert_eq!(queue.receive(), None);
    assert_eq!(queue.drain(), Vec::<Command>::new());
}

#[test]
fn queue_hands_commands_out_in_the_order_sent() {
    let mut queue = CommandQueue::new();
    assert_eq!(queue.send(numbered(1)), Ok(()));
    assert_eq!(queue.send(Command::ToggleBypass), Ok(()));
    assert_eq!(queue.send(Command::ReverbParameters(reverb(2.0))), Ok(()));
    assert_eq!(queue.receive(), Some(numbered(1)));
    assert_eq!(queue.receive(), Some(Command::ToggleBypass));
    assert_eq!(queue.receive(), Some(Command::ReverbParameters(reverb(2.0))));
    assert_eq!(queue.receive(), None);
}

#[test]
fn full_queue_rejects_and_keeps_what_it_holds() {
    let mut queue = CommandQueue::new();
    for i in 0..COMMAND_CAPACITY {
        assert_eq!(queue.send(numbered(i)), Ok(()));
    }
    assert_eq!(queue.send(numbered(100)), Err(numbered(100)));
    assert_eq!(queue.send(Command::ToggleBypass), Err(Command::ToggleBypass));
    let drained = queue.drain();
    let expected: Vec<Command> = (0..COMMAND_CAPACITY).map(numbered).collect();
    assert_eq!(drained, expected);
    assert_eq!(queue.receive(), None);
}

#[test]
fn drained_queue_accepts_again() {
    let mut queue = CommandQueue::new();
    for i in 0..COMMAND_CAPACITY {
        assert_eq!(queue.send(numbered(i)), Ok(()));
    }
    assert_eq!(queue.send(numbered(32)), Err(numbered(32)));
    assert_eq!(queue.receive(), Some(numbered(0)));
    assert_eq!(queue.send(numbered(33)), Ok(()));
    let drained = queue.drain();
    assert_eq!(drained.len(), COMMAND_CAPACITY);
    assert_eq!(drained[0], numbered(1));
    assert_eq!(drained[COMMAND_CAPACITY - 1], numbered(33));
    assert_eq!(queue.send(numbered(34)), Ok(()));
    assert_eq!(queue.drain(), vec![numbered(34)]);
}

#[test]
fn split_halves_share_one_queue() {
    let (mut sender, mut receiver) = CommandQueue::new().split();
    assert_eq!(receiver.receive(), None);
    assert_eq!(sender.send(numbered(7)), Ok(()));
    assert_eq!(sender.send(Command::ToggleBypass), Ok(()));
    assert_eq!(receiver.receive(), Some(numbered(7)));
    assert_eq!(receiver.receive(), Some(Command::ToggleBypass));
    assert_eq!(receiver.receive(), None);
}

#[test]
fn split_keeps_what_was_queued() {
    let mut queue = CommandQueue::new();
    assert_eq!(queue.send(numbered(1)), Ok(()));
    assert_eq!(queue.send(numbered(2)), Ok(()));
    let (mut sender, mut receiver) = queue.split();
    assert_eq!(sender.send(numbered(3)), Ok(()));
    assert_eq!(receiver.receive(), Some(numbered(1)));
    assert_eq!(receiver.receive(), Some(numbered(2)));
    assert_eq!(receiver.receive(), Some(numbered(3)));
    assert_eq!(receiver.receive(), None);
}

#[test]
fn sender_gets_the_rejected_command_back() {
    let (mut sender, mut receiver) = CommandQueue::new().split();
    for i in 0..COMMAND_CAPACITY {
        assert_eq!(sender.send(numbered(i)), Ok(()));
    }
    assert_eq!(sender.send(numbered(99)), Err(numbered(99)));
    for i in 0..COMMAND_CAPACITY {
        assert_eq!(receiver.receive(), Some(numbered(i)));
    }
    assert_eq!(receiver.receive(), None);
    assert_eq!(sender.send(numbered(99)), Ok(()));
    assert_eq!(receiver.receive(), Some(numbered(99)));
}

#[test]
fn sender_is_accepted_while_less_than_capacity_has_gone_in() {
    let mut queue = CommandQueue::new();
    assert_eq!(queue.send(numbered(0)), Ok(()));
    assert_eq!(queue.send(numbered(1)), Ok(()));
    let (mut sender, mut receiver) = queue.split();
    for i in 2..12 {
        assert_eq!(sender.send(numbered(i)), Ok(()));
    }
    for i in 0..7 {
        assert_eq!(receiver.receive(), Some(numbered(i)));
    }
    for i in 12..COMMAND_CAPACITY {
        assert_eq!(sender.send(numbered(i)), Ok(()));
    }
    for i in 7..COMMAND_CAPACITY {
        assert_eq!(receiver.receive(), Some(numbered(i)));
    }
    assert_eq!(receiver.receive(), None);
}

#[test]
fn apply_replaces_the_direct_path() {
    let updated = apply_command(initial(), Command::DirectSoundPath(path(1.0, 4.0)));
    assert_eq!(
        updated,
        DirectEffectParameters { direct_sound_path: path(1.0, 4.0), reverb: reverb(0.1), bypass: false }
    );
}

#[test]
fn apply_replaces_the_reverb_parameters() {
    let updated = apply_command(initial(), Command::ReverbParameters(reverb(3.0)));
    assert_eq!(
        updated,
        DirectEffectParameters { direct_sound_path: path(0.0, 1.0), reverb: reverb(3.0), bypass: false }
    );
}

#[test]
fn apply_toggles_the_bypass() {
    let once = apply_command(initial(), Command::ToggleBypass);
    assert_eq!(once, DirectEffectParameters { bypass: true, ..initial() });
    let twice = apply_command(once, Command::ToggleBypass);
    assert_eq!(twice, initial());
}

#[test]
fn effect_applies_what_was_queued_before_the_split() {
    let mut queue = CommandQueue::new();
    assert_eq!(queue.send(Command::DirectSoundPath(path(0.5, 7.0))), Ok(()));
    assert_eq!(queue.send(Command::ToggleBypass), Ok(()));
    assert_eq!(queue.send(Command::ReverbParameters(reverb(4.0))), Ok(()));
    let (mut sender, receiver) = queue.split();
    let mut effect = DirectEffectWrapped::new(DirectEffectBuilder { parameters: initial() }, receiver);
    assert_eq!(effect.parameters(), initial());
    assert_eq!(effect.on_start_processing(), 3);
    assert_eq!(
        effect.parameters(),
        DirectEffectParameters { direct_sound_path: path(0.5, 7.0), reverb: reverb(4.0), bypass: true }
    );
    assert_eq!(effect.on_start_processing(), 0);
    assert_eq!(sender.send(Command::ToggleBypass), Ok(()));
    assert_eq!(effect.on_start_processing(), 1);
    assert!(!effect.parameters().bypass);
}

#[test]
fn effect_stops_at_the_capacity_and_goes_on_in_the_next_block() {
    let mut queue = CommandQueue::new();
    for i in 0..COMMAND_CAPACITY {
        assert_eq!(queue.send(numbered(i)), Ok(()));
    }
    let (mut sender, receiver) = queue.split();
    let mut effect = DirectEffectWrapped::new(DirectEffectBuilder { parameters: initial() }, receiver);
    assert_eq!(sender.send(Command::ToggleBypass), Err(Command::ToggleBypass));
    assert_eq!(effect.on_start_processing(), COMMAND_CAPACITY);
    assert_eq!(
        effect.parameters(),
        DirectEffectParameters { direct_sound_path: path(0.0, 31.0), ..initial() }
    );
    assert_eq!(sender.send(Command::ToggleBypass), Ok(()));
    assert_eq!(effect.on_start_processing(), 1);
    assert!(effect.parameters().bypass);
}

#[test]
fn built_effect_starts_with_the_builders_parameters() {
    let builder = DirectEffectBuilder { parameters: initial() };
    let (mut effect, _handle) = builder.build();
    assert_eq!(effect.parameters(), initial());
    assert_eq!(effect.on_start_processing(), 0);
    assert_eq!(effect.parameters(), initial());
}

#[test]
fn effect_applies_what_the_handle_sent_in_order() {
    let (mut effect, mut handle) = DirectEffectBuilder { parameters: initial() }.build();
    assert_eq!(handle.set_direct_sound_path(path(0.25, 2.0)), Ok(()));
    assert_eq!(handle.set_reverb_parameters(reverb(1.5)), Ok(()));
    assert_eq!(handle.toggle_bypass(), Ok(()));
    assert_eq!(handle.set_direct_sound_path(path(0.75, 3.0)), Ok(()));
    assert_eq!(effect.parameters(), initial());
    assert_eq!(effect.on_start_processing(), 4);
    assert_eq!(
        effect.parameters(),
        DirectEffectParameters { direct_sound_path: path(0.75, 3.0), reverb: reverb(1.5), bypass: true }
    );
    assert_eq!(effect.on_start_processing(), 0);
}

#[test]
fn each_command_is_applied_once() {
    let (mut effect, mut handle) = DirectEffectBuilder { parameters: initial() }.build();
    assert_eq!(handle.send(Command::ToggleBypass), Ok(()));
    assert_eq!(effect.on_start_processing(), 1);
    assert!(effect.parameters().bypass);
    assert_eq!(effect.on_start_processing(), 0);
    assert!(effect.parameters().bypass);
}

#[test]
fn handle_reports_a_full_queue_and_the_effect_catches_up() {
    let (mut effect, mut handle) = DirectEffectBuilder { parameters: initial() }.build();
    for i in 0..COMMAND_CAPACITY {
        assert_eq!(handle.set_direct_sound_path(path(0.0, i as f32)), Ok(()));
    }
    assert_eq!(
        handle.set_direct_sound_path(path(1.0, 500.0)),
        Err(Command::DirectSoundPath(path(1.0, 500.0)))
    );
    assert_eq!(handle.toggle_bypass(), Err(Command::ToggleBypass));
    assert_eq!(handle.set_reverb_parameters(reverb(9.0)), Err(Command::ReverbParameters(reverb(9.0))));
    assert_eq!(effect.on_start_processing(), COMMAND_CAPACITY);
    assert_eq!(
        effect.parameters(),
        DirectEffectParameters { direct_sound_path: path(0.0, 31.0), ..initial() }
    );
    assert_eq!(handle.toggle_bypass(), Ok(()));
    assert_eq!(effect.on_start_processing(), 1);
    assert!(effect.parameters().bypass);
}

#[test]
fn builder_can_be_copied_and_compared() {
    let builder = DirectEffectBuilder { parameters: initial() };
    let copy = builder;
    assert_eq!(builder, copy);
    assert_ne!(builder, DirectEffectBuilder { parameters: DirectEffectParameters { bypass: true, ..initial() } });
}
