//! The command queue between the callers and the driver: a bounded channel.
//!
//! Callers offer commands without waiting, or submit them and wait for
//! room; the driver takes them one at a time, in the order in which they
//! were accepted.

use crate::command::Command;
use crate::driver::Event;
use futures::channel::mpsc::{channel, Receiver, Sender, TryRecvError};
use futures::executor::{block_on, enter};
use futures::SinkExt;
use vstd::prelude::*;

verus! {

/// `futures::channel::mpsc::Sender`, carried through without a look inside.
#[verifier::external_type_specification]
#[verifier::external_body]
#[verifier::reject_recursive_types(T)]
pub struct ExSender<T>(Sender<T>);

/// `futures::channel::mpsc::Receiver`, carried through without a look
/// inside.
#[verifier::external_type_specification]
#[verifier::external_body]
#[verifier::reject_recursive_types(T)]
pub struct ExReceiver<T>(Receiver<T>);

/// How many commands the queue holds before it turns a sender away.
pub const QUEUE_DEPTH: usize = 8;

/// The buffer that the channel of `sender` was made with: how many commands
/// it holds on top of the one slot that each sender has for itself.
pub uninterp spec fn buffer_of(sender: Sender<Command>) -> nat;

/// `futures::channel::mpsc::channel`: the two ends of a new bounded channel.
/// The buffer must be below a quarter of the largest `usize`, which is where
/// the channel's own limit lies. The channel is made with the buffer that
/// was asked for; nothing else is claimed of the ends.
#[verifier::external_body]
fn new_channel(buffer: usize) -> (r: (Sender<Command>, Receiver<Command>))
    requires
        buffer < usize::MAX / 4,
    ensures
        buffer_of(r.0) == buffer,
{
    channel(buffer)
}

/// `Sender::try_send`: puts the command into the channel if there is room
/// and the receiver is still there, and drops it otherwise. Nothing is
/// claimed: which of the two happened is not reported.
#[verifier::external_body]
fn try_send(sender: &mut Sender<Command>, command: Command) {
    let _ = sender.try_send(command);
}

/// `futures::executor::enter`: tells whether the thread is inside an
/// executor of `futures`. The mark that a successful call sets is taken off
/// again before this returns. Nothing is claimed of the answer: it depends on
/// what the thread is doing.
#[verifier::external_body]
fn inside_executor() -> bool {
    enter().is_err()
}

/// `SinkExt::send` run by `futures::executor::block_on`: waits until the
/// channel has room, then puts the command into it; gives up where the
/// receiver is gone. `block_on` panics inside another executor of `futures`:
/// the one caller asks `inside_executor` first. Nothing is claimed: whether
/// the command went in is not reported.
#[verifier::external_body]
fn send_waiting(sender: &mut Sender<Command>, command: Command) {
    let _ = block_on(sender.send(command));
}

/// `Receiver::try_recv`: takes the next command if there is one, without
/// waiting. The three outcomes of the call become the three events that
/// answer a poll; which one comes depends on what the senders have done.
#[verifier::external_body]
fn try_recv(receiver: &mut Receiver<Command>) -> (event: Event)
    ensures
        event is Command || event is QueueEmpty || event is QueueClosed,
{
    match receiver.try_recv() {
        Ok(command) => Event::Command(command),
        Err(TryRecvError::Empty) => Event::QueueEmpty,
        Err(TryRecvError::Closed) => Event::QueueClosed,
    }
}

/// A new command queue: the end that callers offer commands to, and the end
/// that the driver takes them from. The queue is bounded: it is made with a
/// buffer of `QUEUE_DEPTH` commands.
pub fn command_queue() -> (r: (Sender<Command>, Receiver<Command>))
    ensures
        buffer_of(r.0) == QUEUE_DEPTH,
{
    new_channel(QUEUE_DEPTH)
}

/// Offers `command` to the queue. The offer is best effort: where the queue
/// is full or the driver has gone, the command is dropped and nothing is
/// reported.
pub fn offer(sender: &mut Sender<Command>, command: Command) {
    try_send(sender, command)
}

/// Hands `command` to the queue and waits for room where the queue is full.
/// Where the driver has gone, the command is dropped and nothing is
/// reported. From inside an executor of `futures`, where waiting is not
/// possible, the command is offered without waiting.
pub fn submit(sender: &mut Sender<Command>, command: Command) {
    if inside_executor() {
        try_send(sender, command)
    } else {
        send_waiting(sender, command)
    }
}

/// Polls the queue once, without waiting, and says what came of it.
pub fn poll(receiver: &mut Receiver<Command>) -> (event: Event)
    ensures
        event is Command || event is QueueEmpty || event is QueueClosed,
{
    try_recv(receiver)
}

} // verus!
