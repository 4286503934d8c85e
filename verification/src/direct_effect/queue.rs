//! The bounded first-in, first-out command queue, whole and split in two.
//!
//! The queue is a ring buffer of the `ringbuf` crate. Whole, it belongs to
//! one owner, and its contents are known after every operation. Split, its
//! two halves may sit on different threads: what one half finds then depends
//! on what the other has done meanwhile, and the contracts of the halves
//! claim only what holds whichever way that went. Each half is therefore
//! described by what it alone decides: the sender by the commands that have
//! gone in at its end, the receiver by the commands that were queued at the
//! split and that it has not taken out yet.
//!
//! The three structs and the six functions marked `external_body` are where
//! this crate meets `ringbuf`. Their contracts say what `ringbuf`'s source
//! shows and are believed, not proved; everything else here is proved from
//! them.

use vstd::prelude::*;
use crate::direct_effect::command::Command;

verus! {

/// The number of commands that a queue holds at most.
pub const COMMAND_CAPACITY: usize = 32;

/// A whole queue: `ringbuf::HeapRb<Command>`, which Verus does not look into.
#[verifier::external_body]
pub struct CommandQueue {
    ring: ringbuf::HeapRb<Command>,
}

/// The sending half of a split queue: `ringbuf::HeapProducer<Command>`,
/// which Verus does not look into.
#[verifier::external_body]
pub struct CommandSender {
    producer: ringbuf::HeapProducer<Command>,
}

/// The receiving half of a split queue: `ringbuf::HeapConsumer<Command>`,
/// which Verus does not look into.
#[verifier::external_body]
pub struct CommandReceiver {
    consumer: ringbuf::HeapConsumer<Command>,
}

/// The commands that a whole queue holds, oldest first.
pub uninterp spec fn queued_commands(queue: CommandQueue) -> Seq<Command>;

/// The number of commands that a whole queue was made to hold at most.
pub uninterp spec fn queue_capacity(queue: CommandQueue) -> nat;

/// The commands that have gone into the queue at a sender's end, oldest
/// first: those that the queue held when it was split, then every command
/// that a push of this sender has accepted since. Nothing but a push of this
/// sender adds to them, and nothing takes from them.
pub uninterp spec fn sender_accepted(sender: CommandSender) -> Seq<Command>;

/// The number of commands that the queue behind a sender holds at most.
pub uninterp spec fn sender_capacity(sender: CommandSender) -> nat;

/// The commands that the queue held when it was split and that the receiver
/// has not taken out yet, oldest first. They stay at the front of the queue
/// whatever the sender does, which only adds at the back.
pub uninterp spec fn receiver_front(receiver: CommandReceiver) -> Seq<Command>;

/// `ringbuf::HeapRb::new`: an empty ring buffer of the capacity asked for.
/// The call panics on a capacity of zero, and on one too large to allocate.
#[verifier::external_body]
fn ring_new(capacity: usize) -> (queue: CommandQueue)
    requires
        0 < capacity <= u16::MAX,
    ensures
        queued_commands(queue) == Seq::<Command>::empty(),
        queue_capacity(queue) == capacity,
{
    CommandQueue { ring: ringbuf::HeapRb::new(capacity) }
}

/// `ringbuf::Rb::push`: with room left, the command goes to the back and the
/// call returns `Ok`; with the buffer full, the buffer stays as it is and the
/// command comes back in `Err`.
#[verifier::external_body]
fn ring_push(queue: &mut CommandQueue, command: Command) -> (pushed: Result<(), Command>)
    ensures
        queue_capacity(*final(queue)) == queue_capacity(*old(queue)),
        queued_commands(*old(queue)).len() < queue_capacity(*old(queue)) ==> pushed is Ok
            && queued_commands(*final(queue)) == queued_commands(*old(queue)).push(command),
        queued_commands(*old(queue)).len() >= queue_capacity(*old(queue)) ==> pushed is Err
            && pushed->Err_0 == command && queued_commands(*final(queue)) == queued_commands(
            *old(queue),
        ),
{
    ringbuf::Rb::push(&mut queue.ring, command)
}

/// `ringbuf::Rb::pop`: the oldest command leaves the buffer and is returned;
/// an empty buffer stays empty and the call returns `None`.
#[verifier::external_body]
fn ring_pop(queue: &mut CommandQueue) -> (popped: Option<Command>)
    ensures
        queue_capacity(*final(queue)) == queue_capacity(*old(queue)),
        queued_commands(*old(queue)).len() > 0 ==> popped == Some(queued_commands(*old(queue))[0])
            && queued_commands(*final(queue)) == queued_commands(*old(queue)).drop_first(),
        queued_commands(*old(queue)).len() == 0 ==> popped is None && queued_commands(
            *final(queue),
        ) == queued_commands(*old(queue)),
{
    ringbuf::Rb::pop(&mut queue.ring)
}

/// `ringbuf::SharedRb::split`: the ring buffer moves behind a shared pointer
/// as it is, and the two halves refer to it. So what the buffer held is what
/// has gone in at the sender's end so far, and is what lies before the
/// receiver; the capacity is the buffer's.
#[verifier::external_body]
fn ring_split(queue: CommandQueue) -> (halves: (CommandSender, CommandReceiver))
    ensures
        sender_accepted(halves.0) == queued_commands(queue),
        sender_capacity(halves.0) == queue_capacity(queue),
        receiver_front(halves.1) == queued_commands(queue),
{
    let (producer, consumer) = queue.ring.split();
    (CommandSender { producer }, CommandReceiver { consumer })
}

/// `ringbuf::Producer::push`: where the buffer has room, the command is
/// written at the back and the call returns `Ok`; where it is full, nothing
/// is written and the command comes back in `Err`. Whether it is full
/// depends on the receiving half, with one exception: the buffer holds only
/// commands that went in at this end, so it is not full while fewer than its
/// capacity have gone in.
#[verifier::external_body]
fn producer_push(sender: &mut CommandSender, command: Command) -> (pushed: Result<(), Command>)
    ensures
        sender_capacity(*final(sender)) == sender_capacity(*old(sender)),
        pushed is Ok ==> sender_accepted(*final(sender)) == sender_accepted(*old(sender)).push(
            command,
        ),
        pushed is Err ==> pushed->Err_0 == command && sender_accepted(*final(sender))
            == sender_accepted(*old(sender)),
        sender_accepted(*old(sender)).len() < sender_capacity(*old(sender)) ==> pushed is Ok,
{
    sender.producer.push(command)
}

/// `ringbuf::Consumer::pop`: the oldest command leaves the buffer and is
/// returned, if the buffer holds one. A command that was queued at the split
/// and is still there is the oldest. Once those are gone, what the call finds
/// depends on the sending half.
#[verifier::external_body]
fn consumer_pop(receiver: &mut CommandReceiver) -> (popped: Option<Command>)
    ensures
        receiver_front(*old(receiver)).len() > 0 ==> popped == Some(
            receiver_front(*old(receiver))[0],
        ) && receiver_front(*final(receiver)) == receiver_front(*old(receiver)).drop_first(),
        receiver_front(*old(receiver)).len() == 0 ==> receiver_front(*final(receiver))
            == receiver_front(*old(receiver)),
{
    receiver.consumer.pop()
}

/// What a queue of `capacity` that holds `queued` holds after `command` was
/// sent: a full queue rejects the command and keeps what it has.
pub open spec fn after_send(queued: Seq<Command>, capacity: nat, command: Command) -> Seq<Command> {
    if queued.len() < capacity {
        queued.push(command)
    } else {
        queued
    }
}

/// What a queue of `capacity` that holds `queued` holds after `commands`
/// were sent one by one, first to last.
pub open spec fn after_sends(queued: Seq<Command>, capacity: nat, commands: Seq<Command>) -> Seq<
    Command,
>
    decreases commands.len(),
{
    if commands.len() == 0 {
        queued
    } else {
        after_send(after_sends(queued, capacity, commands.drop_last()), capacity, commands.last())
    }
}

impl View for CommandQueue {
    type V = Seq<Command>;

    /// The queued commands, oldest first.
    open spec fn view(&self) -> Seq<Command> {
        queued_commands(*self)
    }
}

impl CommandQueue {
    /// The queue holds no more than it was made for.
    pub open spec fn wf(&self) -> bool {
        &&& queue_capacity(*self) == COMMAND_CAPACITY
        &&& self@.len() <= COMMAND_CAPACITY
    }

    /// An empty queue with room for `COMMAND_CAPACITY` commands.
    pub fn new() -> (queue: Self)
        ensures
            queue.wf(),
            queue@ == Seq::<Command>::empty(),
    {
        ring_new(COMMAND_CAPACITY)
    }

    /// Puts `command` at the back of the queue. A full queue rejects it at
    /// once, hands it back and keeps what it holds.
    pub fn send(&mut self, command: Command) -> (sent: Result<(), Command>)
        requires
            old(self).wf(),
        ensures
            final(self).wf(),
            final(self)@ == after_send(old(self)@, COMMAND_CAPACITY as nat, command),
            old(self)@.len() < COMMAND_CAPACITY ==> sent is Ok,
            old(self)@.len() == COMMAND_CAPACITY ==> sent == Err::<(), Command>(command),
    {
        ring_push(self, command)
    }

    /// Takes the oldest command out of the queue, if there is one.
    pub fn receive(&mut self) -> (received: Option<Command>)
        requires
            old(self).wf(),
        ensures
            final(self).wf(),
            old(self)@.len() == 0 ==> received is None && final(self)@ == old(self)@,
            old(self)@.len() > 0 ==> received == Some(old(self)@[0]) && final(self)@ == old(
                self,
            )@.drop_first(),
    {
        ring_pop(self)
    }

    /// Empties the queue and returns what it held, oldest first. The result
    /// is allocated: this is for the owner of a whole queue, not for the
    /// render thread.
    pub fn drain(&mut self) -> (commands: Vec<Command>)
        requires
            old(self).wf(),
        ensures
            final(self).wf(),
            commands@ == old(self)@,
            final(self)@ == Seq::<Command>::empty(),
    {
        let mut commands: Vec<Command> = Vec::with_capacity(COMMAND_CAPACITY);
        let mut taken: usize = 0;
        while taken < COMMAND_CAPACITY
            invariant
                self.wf(),
                taken <= COMMAND_CAPACITY,
                commands@.len() <= taken,
                old(self)@ == commands@ + self@,
                commands@.len() < taken ==> self@.len() == 0,
            decreases COMMAND_CAPACITY - taken,
        {
            match ring_pop(self) {
                Some(command) => {
                    proof {
                        assert(commands@.push(command) + self@ =~= old(self)@);
                    }
                    commands.push(command);
                },
                None => {},
            }
            taken += 1;
        }
        proof {
            assert(commands@ =~= old(self)@);
        }
        commands
    }

    /// Splits the queue into its sending and its receiving half. The halves
    /// go on with what the queue holds: it counts as gone in at the sender's
    /// end, and it is what the receiver takes out first.
    pub fn split(self) -> (halves: (CommandSender, CommandReceiver))
        ensures
            halves.0@ == self@,
            halves.0.capacity() == queue_capacity(self),
            halves.1@ == self@,
    {
        ring_split(self)
    }
}

impl View for CommandSender {
    type V = Seq<Command>;

    /// The commands that have gone into the queue at this end, oldest first.
    open spec fn view(&self) -> Seq<Command> {
        sender_accepted(*self)
    }
}

impl CommandSender {
    /// The number of commands that the queue holds at most.
    pub open spec fn capacity(&self) -> nat {
        sender_capacity(*self)
    }

    /// Offers `command` to the queue. An accepted command has gone in behind
    /// all earlier ones. If the queue has no room at that moment, the
    /// command comes back at once, unchanged, and nothing has gone in. The
    /// queue has room at least until as many commands have gone in as it
    /// holds, whatever the receiver has taken out.
    pub fn send(&mut self, command: Command) -> (sent: Result<(), Command>)
        ensures
            final(self).capacity() == old(self).capacity(),
            sent is Ok ==> final(self)@ == old(self)@.push(command),
            sent is Err ==> sent->Err_0 == command && final(self)@ == old(self)@,
            old(self)@.len() < old(self).capacity() ==> sent is Ok,
    {
        producer_push(self, command)
    }
}

impl View for CommandReceiver {
    type V = Seq<Command>;

    /// The commands that were queued at the split and are still to be
    /// received, oldest first.
    open spec fn view(&self) -> Seq<Command> {
        receiver_front(*self)
    }
}

impl CommandReceiver {
    /// Takes the oldest command out of the queue, if one has arrived. What
    /// was queued at the split comes out first, in order; after that, what
    /// the sender has sent.
    pub fn receive(&mut self) -> (received: Option<Command>)
        ensures
            old(self)@.len() > 0 ==> received == Some(old(self)@[0]) && final(self)@ == old(
                self,
            )@.drop_first(),
            old(self)@.len() == 0 ==> final(self)@ == old(self)@,
    {
        consumer_pop(self)
    }
}

/// Sending more commands than a queue has room for, without receiving in
/// between: the queue accepts commands until it is full and rejects the rest.
/// What it holds afterwards is what it held before, followed by the commands
/// it accepted, in the order in which they were sent.
pub proof fn lemma_sends_fill_in_order(queued: Seq<Command>, capacity: nat, commands: Seq<Command>)
    requires
        queued.len() <= capacity,
    ensures
        after_sends(queued, capacity, commands).len() == if queued.len() + commands.len()
            <= capacity {
            queued.len() + commands.len()
        } else {
            capacity
        },
        after_sends(queued, capacity, commands) == (queued + commands).take(
            after_sends(queued, capacity, commands).len() as int,
        ),
    decreases commands.len(),
{
    if commands.len() == 0 {
        assert((queued + commands).take(queued.len() as int) =~= queued);
    } else {
        let earlier = commands.drop_last();
        lemma_sends_fill_in_order(queued, capacity, earlier);
        let before = after_sends(queued, capacity, earlier);
        let after = after_sends(queued, capacity, commands);
        if before.len() < capacity {
            assert(after == before.push(commands.last()));
            assert(after =~= (queued + commands).take(after.len() as int));
        } else {
            assert(after == before);
            assert(after =~= (queued + commands).take(after.len() as int));
        }
    }
}

/// Whether the command at position `k` of `commands` is accepted when
/// `commands` are sent one by one to a queue that holds `queued`: it is
/// exactly if the queue has not filled up before its turn.
pub proof fn lemma_send_accepted_while_room(
    queued: Seq<Command>,
    capacity: nat,
    commands: Seq<Command>,
    k: int,
)
    requires
        queued.len() <= capacity,
        0 <= k < commands.len(),
    ensures
        after_sends(queued, capacity, commands.take(k)).len() < capacity <==> queued.len() + k
            < capacity,
{
    lemma_sends_fill_in_order(queued, capacity, commands.take(k));
}

} // verus!
