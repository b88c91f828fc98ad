//! The handle through which callers reach the driver: four operations, each
//! one command handed to the queue. Only the evaluation waits for an answer.
//!
//! The handle keeps a record, for proofs only, of the commands that it has
//! handed to the queue. What the queue did with them is not in the record:
//! the queue is shared with the driver's thread.

use crate::command::{Command, CommandView};
use crate::queue::{offer, submit};
use crate::rendezvous::Wait;
use crossbeam::atomic::AtomicCell;
use futures::channel::mpsc::Sender;
use std::sync::Arc;
use vstd::prelude::*;

verus! {

/// The callers' end of a running driver. `T` is what the driver publishes
/// for an evaluation.
#[verifier::reject_recursive_types(T)]
pub struct Engine<T: Copy> {
    sender: Sender<Command>,
    eval: Arc<Wait<AtomicCell<T>>>,
    offered: Ghost<Seq<CommandView>>,
}

/// Offers `command` to the queue without waiting, and puts it on the record
/// `log`.
fn hand_over(sender: &mut Sender<Command>, log: &mut Ghost<Seq<CommandView>>, command: Command)
    ensures
        final(log)@ == old(log)@.push(command@),
{
    proof {
        log@ = log@.push(command@);
    }
    offer(sender, command);
}

/// Hands `command` to the queue, waiting for room, and puts it on the
/// record `log`.
fn hand_over_waiting(
    sender: &mut Sender<Command>,
    log: &mut Ghost<Seq<CommandView>>,
    command: Command,
)
    ensures
        final(log)@ == old(log)@.push(command@),
{
    proof {
        log@ = log@.push(command@);
    }
    submit(sender, command);
}

impl<T: Copy> Engine<T> {
    /// The end of the command queue that the handle hands its commands to.
    pub closed spec fn sender(&self) -> Sender<Command> {
        self.sender
    }

    /// The cell that the handle collects evaluations from.
    pub closed spec fn cell(&self) -> Arc<Wait<AtomicCell<T>>> {
        self.eval
    }

    /// The commands that the handle has handed to the queue, in order.
    pub closed spec fn offered(&self) -> Seq<CommandView> {
        self.offered@
    }

    /// A handle that hands its commands to `sender` and collects
    /// evaluations from `eval`. It has handed over nothing yet.
    pub fn connect(sender: Sender<Command>, eval: Arc<Wait<AtomicCell<T>>>) -> (r: Self)
        ensures
            r.sender() == sender,
            r.cell() == eval,
            r.offered() == Seq::<CommandView>::empty(),
    {
        Engine { sender, eval, offered: Ghost(Seq::empty()) }
    }

    /// Sets the fen on the board to analyze: hands `SetPosition(fen)` to the
    /// queue, without waiting and without a report.
    pub fn set_fen(&mut self, fen: String)
        ensures
            final(self).offered() == old(self).offered().push(CommandView::SetPosition(fen@)),
            final(self).cell() == old(self).cell(),
    {
        hand_over(&mut self.sender, &mut self.offered, Command::SetPosition(fen));
    }

    /// Makes the engine start analyzing the position: hands `StartAnalysis`
    /// to the queue, without waiting and without a report.
    pub fn start(&mut self)
        ensures
            final(self).offered() == old(self).offered().push(CommandView::StartAnalysis),
            final(self).cell() == old(self).cell(),
    {
        hand_over(&mut self.sender, &mut self.offered, Command::StartAnalysis);
    }

    /// Makes the engine stop analyzing the position: hands `StopAnalysis` to
    /// the queue, without waiting and without a report.
    pub fn stop(&mut self)
        ensures
            final(self).offered() == old(self).offered().push(CommandView::StopAnalysis),
            final(self).cell() == old(self).cell(),
    {
        hand_over(&mut self.sender, &mut self.offered, Command::StopAnalysis);
    }

    /// Asks for an evaluation and waits for it: arms the cell, hands
    /// `RequestEvaluation` to the queue, waiting for room, then blocks until
    /// the driver has published, and gives what the cell then holds. Where
    /// the request was dropped or the driver has gone, this does not return.
    pub fn get_eval(&mut self) -> (r: T)
        ensures
            final(self).offered() == old(self).offered().push(CommandView::RequestEvaluation),
            final(self).cell() == old(self).cell(),
    {
        self.eval.set_waiting();
        hand_over_waiting(&mut self.sender, &mut self.offered, Command::RequestEvaluation);
        self.eval.collect()
    }
}

} // verus!
