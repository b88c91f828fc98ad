//! The engine driver as a state machine.
//!
//! The driver owns no process and no queue. It decides: given what just
//! happened (an `Event`), it moves to its next state and says what has to be
//! done next (an `Action`). Whoever runs it performs the action on the engine
//! process, the command queue or the rendezvous cell, and reports the outcome
//! as the next event.
//!
//! Each action is answered by one event:
//!
//! | action     | answered by                                |
//! |------------|--------------------------------------------|
//! | `Spawn`    | `Spawned`, `SpawnFailed`                   |
//! | `Write`    | `Written`, `IoFailed`                      |
//! | `ReadLine` | `Line`, `IoFailed`                         |
//! | `Poll`     | `Command`, `QueueEmpty`, `QueueClosed`     |
//! | `Announce` | `Announced`                                |
//! | `Publish`  | `Published`                                |
//! | `Exit`     | nothing: the driver has stopped            |
//!
//! An event that does not answer the pending action counts as a failure.

use crate::command::{Command, CommandView};
use crate::eval::{eval_of_block, Eval, EvalError, EvalView};
use crate::options;
use crate::options::{option_of_line, OptionView};
use crate::queue::poll;
use crate::text::same_text;
use futures::channel::mpsc::Receiver;
use vstd::prelude::*;
use vstd::string::StringExecFns;

verus! {

/// How many lines the engine prints between the identification command and
/// its first option.
pub const INTRO_LINES: usize = 3;

/// How many lines are read for one evaluation: more than the longest dump.
pub const EVAL_LINES: usize = 72;

/// Why the driver stopped.
#[derive(Debug, Clone, Copy, PartialEq, Eq, Structural)]
pub enum Outcome {
    /// The command queue was closed and drained.
    Closed,
    /// The engine process could not be started.
    SpawnFailed,
    /// The handshake broke off: a read or write failed, or a line was neither
    /// an option nor the closing `uciok`.
    HandshakeFailed,
    /// A read or write failed while a command was served.
    IoFailed,
}

/// The four states that a caller can tell apart.
#[derive(Debug, Clone, Copy, PartialEq, Eq, Structural)]
pub enum Stage {
    Starting,
    Handshaking,
    Ready,
    Terminated,
}

/// Where the driver stands: which answer it waits for.
#[derive(Debug, Clone, Copy, PartialEq, Eq, Structural)]
pub enum Phase {
    /// The engine is being started.
    Starting,
    /// The engine's banner line is being read.
    Banner,
    /// `uci` is being written.
    Identify,
    /// The introductory lines are being read; `left` of them are to come.
    Intro { left: usize },
    /// Option lines are being read, up to `uciok`.
    Options,
    /// The options are being handed over.
    Announce,
    /// `ucinewgame` is being written.
    NewGame,
    /// The command queue is being polled.
    Idle,
    /// The instruction of a command without an answer is being written.
    Sending,
    /// `stop` is being written.
    Stopping,
    /// The engine's answer to `stop` is being read.
    BestMove,
    /// `eval` is being written.
    Evaluating,
    /// The evaluation dump is being read; `left` lines are to come.
    Draining { left: usize },
    /// The evaluation is being published.
    Publishing,
    /// A failed evaluation is being published; the driver stops after it.
    Failing,
    /// The driver has stopped.
    Terminated { outcome: Outcome },
}

impl Phase {
    /// The state that the phase belongs to.
    pub open spec fn stage(self) -> Stage {
        match self {
            Phase::Starting => Stage::Starting,
            Phase::Banner | Phase::Identify | Phase::Intro { .. } | Phase::Options | Phase::Announce
            | Phase::NewGame => Stage::Handshaking,
            Phase::Terminated { .. } => Stage::Terminated,
            _ => Stage::Ready,
        }
    }

    /// Tells whether a caller waits for an evaluation that has not been
    /// published yet.
    pub open spec fn owes_result(self) -> bool {
        self is Evaluating || self is Draining
    }
}

/// Why no evaluation could be published.
#[derive(Debug, Clone, Copy, PartialEq, Eq, Structural)]
pub enum EvalFailure {
    /// The dump was read but did not have the expected shape.
    Malformed(EvalError),
    /// Writing the request or reading the dump failed.
    Io,
}

/// What happened since the last action.
#[derive(Debug, Clone, PartialEq, Eq)]
pub enum Event {
    /// The engine process runs.
    Spawned,
    /// The engine process could not be started.
    SpawnFailed,
    /// The text was written to the engine.
    Written,
    /// A line was read from the engine, with its line feed; empty at the end
    /// of the output.
    Line(String),
    /// The options were handed over.
    Announced,
    /// The evaluation was published.
    Published,
    /// A command was taken from the queue.
    Command(Command),
    /// The queue holds no command.
    QueueEmpty,
    /// The queue is closed and holds no command.
    QueueClosed,
    /// A read or a write failed.
    IoFailed,
}

/// What has to be done next.
#[derive(Debug, PartialEq, Eq)]
pub enum Action {
    /// Start the engine process.
    Spawn,
    /// Write the text to the engine.
    Write(String),
    /// Read one line from the engine.
    ReadLine,
    /// Take a command from the queue, without waiting.
    Poll,
    /// Hand the options over to whoever waits for them.
    Announce,
    /// Store the outcome in the rendezvous cell and wake the waiter.
    Publish(Result<Eval, EvalFailure>),
    /// Leave the loop.
    Exit,
}

/// What an `Event` holds, as mathematical values.
pub enum EventView {
    Spawned,
    SpawnFailed,
    Written,
    Line(Seq<char>),
    Announced,
    Published,
    Command(CommandView),
    QueueEmpty,
    QueueClosed,
    IoFailed,
}

/// What an `Action` holds, as mathematical values.
pub enum ActionView {
    Spawn,
    Write(Seq<char>),
    ReadLine,
    Poll,
    Announce,
    Publish(Result<EvalView, EvalFailure>),
    Exit,
}

impl View for Event {
    type V = EventView;

    open spec fn view(&self) -> EventView {
        match self {
            Event::Spawned => EventView::Spawned,
            Event::SpawnFailed => EventView::SpawnFailed,
            Event::Written => EventView::Written,
            Event::Line(line) => EventView::Line(line@),
            Event::Announced => EventView::Announced,
            Event::Published => EventView::Published,
            Event::Command(c) => EventView::Command(c@),
            Event::QueueEmpty => EventView::QueueEmpty,
            Event::QueueClosed => EventView::QueueClosed,
            Event::IoFailed => EventView::IoFailed,
        }
    }
}

impl View for Action {
    type V = ActionView;

    open spec fn view(&self) -> ActionView {
        match self {
            Action::Spawn => ActionView::Spawn,
            Action::Write(text) => ActionView::Write(text@),
            Action::ReadLine => ActionView::ReadLine,
            Action::Poll => ActionView::Poll,
            Action::Announce => ActionView::Announce,
            Action::Publish(Ok(eval)) => ActionView::Publish(Ok(eval@)),
            Action::Publish(Err(e)) => ActionView::Publish(Err(*e)),
            Action::Exit => ActionView::Exit,
        }
    }
}

/// The driver: its phase, the options read so far, and the lines of the
/// evaluation dump read so far.
#[derive(Debug)]
pub struct Driver {
    phase: Phase,
    options: Vec<options::Option>,
    block: String,
}

/// What a `Driver` holds, as mathematical values.
pub struct DriverView {
    pub phase: Phase,
    pub options: Seq<OptionView>,
    pub block: Seq<char>,
}

/// The mathematical values of the options `v`, in order.
pub open spec fn option_views(v: Seq<options::Option>) -> Seq<OptionView> {
    v.map_values(|o: options::Option| o@)
}

impl View for Driver {
    type V = DriverView;

    closed spec fn view(&self) -> DriverView {
        DriverView { phase: self.phase, options: option_views(self.options@), block: self.block@ }
    }
}

impl DriverView {
    /// The same driver in another phase.
    pub open spec fn at(self, phase: Phase) -> DriverView {
        DriverView { phase, ..self }
    }

    /// The driver as it stops.
    pub open spec fn stopped(self, outcome: Outcome) -> (DriverView, ActionView) {
        (self.at(Phase::Terminated { outcome }), ActionView::Exit)
    }
}

/// The driver before anything has happened.
pub open spec fn initial() -> DriverView {
    DriverView { phase: Phase::Starting, options: Seq::empty(), block: Seq::empty() }
}

/// The phase in which the instruction of `c` is written.
pub open spec fn phase_of_command(c: CommandView) -> Phase {
    match c {
        CommandView::SetPosition(_) => Phase::Sending,
        CommandView::StartAnalysis => Phase::Sending,
        CommandView::StopAnalysis => Phase::Stopping,
        CommandView::RequestEvaluation => Phase::Evaluating,
    }
}

/// What is published for the dump `block`.
pub open spec fn published(block: Seq<char>) -> Result<EvalView, EvalFailure> {
    match eval_of_block(block) {
        Ok(eval) => Ok(eval),
        Err(e) => Err(EvalFailure::Malformed(e)),
    }
}

/// The transition function: the driver after the event `e`, and the action
/// that it asks for.
///
/// Handshake: read the banner, write `uci`, read the introductory lines, then
/// read options up to the line `uciok`, hand them over and write
/// `ucinewgame`. Ready: poll; write the instruction of each command; after
/// `stop` read one line; after `eval` read `EVAL_LINES` lines and publish what
/// they hold. A failure during the handshake or while a command is served
/// stops the driver, after the publication that a waiting caller is owed.
pub open spec fn next(d: DriverView, e: EventView) -> (DriverView, ActionView) {
    match d.phase {
        Phase::Starting => match e {
            EventView::Spawned => (d.at(Phase::Banner), ActionView::ReadLine),
            _ => d.stopped(Outcome::SpawnFailed),
        },
        Phase::Banner => match e {
            EventView::Line(_) => (d.at(Phase::Identify), ActionView::Write("uci\n"@)),
            _ => d.stopped(Outcome::HandshakeFailed),
        },
        Phase::Identify => match e {
            EventView::Written => (d.at(Phase::Intro { left: INTRO_LINES }), ActionView::ReadLine),
            _ => d.stopped(Outcome::HandshakeFailed),
        },
        Phase::Intro { left } => match e {
            EventView::Line(_) => if left > 1 {
                (d.at(Phase::Intro { left: (left - 1) as usize }), ActionView::ReadLine)
            } else {
                (d.at(Phase::Options), ActionView::ReadLine)
            },
            _ => d.stopped(Outcome::HandshakeFailed),
        },
        Phase::Options => match e {
            EventView::Line(line) => if line == "uciok\n"@ {
                (d.at(Phase::Announce), ActionView::Announce)
            } else {
                match option_of_line(line) {
                    Ok(option) => (
                        DriverView { options: d.options.push(option), ..d },
                        ActionView::ReadLine,
                    ),
                    Err(_) => d.stopped(Outcome::HandshakeFailed),
                }
            },
            _ => d.stopped(Outcome::HandshakeFailed),
        },
        Phase::Announce => match e {
            EventView::Announced => (d.at(Phase::NewGame), ActionView::Write("ucinewgame\n"@)),
            _ => d.stopped(Outcome::HandshakeFailed),
        },
        Phase::NewGame => match e {
            EventView::Written => (d.at(Phase::Idle), ActionView::Poll),
            _ => d.stopped(Outcome::HandshakeFailed),
        },
        Phase::Idle => match e {
            EventView::Command(c) => (
                d.at(phase_of_command(c)),
                ActionView::Write(c.instruction()),
            ),
            EventView::QueueEmpty => (d, ActionView::Poll),
            EventView::QueueClosed => d.stopped(Outcome::Closed),
            _ => d.stopped(Outcome::IoFailed),
        },
        Phase::Sending => match e {
            EventView::Written => (d.at(Phase::Idle), ActionView::Poll),
            _ => d.stopped(Outcome::IoFailed),
        },
        Phase::Stopping => match e {
            EventView::Written => (d.at(Phase::BestMove), ActionView::ReadLine),
            _ => d.stopped(Outcome::IoFailed),
        },
        Phase::BestMove => match e {
            EventView::Line(_) => (d.at(Phase::Idle), ActionView::Poll),
            _ => d.stopped(Outcome::IoFailed),
        },
        Phase::Evaluating => match e {
            EventView::Written => (
                DriverView { phase: Phase::Draining { left: EVAL_LINES }, block: Seq::empty(), ..d },
                ActionView::ReadLine,
            ),
            _ => (d.at(Phase::Failing), ActionView::Publish(Err(EvalFailure::Io))),
        },
        Phase::Draining { left } => match e {
            EventView::Line(line) => if left > 1 {
                (
                    DriverView {
                        phase: Phase::Draining { left: (left - 1) as usize },
                        block: d.block + line,
                        ..d
                    },
                    ActionView::ReadLine,
                )
            } else {
                (
                    DriverView { phase: Phase::Publishing, block: d.block + line, ..d },
                    ActionView::Publish(published(d.block + line)),
                )
            },
            _ => (d.at(Phase::Failing), ActionView::Publish(Err(EvalFailure::Io))),
        },
        Phase::Publishing => match e {
            EventView::Published => (d.at(Phase::Idle), ActionView::Poll),
            _ => d.stopped(Outcome::IoFailed),
        },
        Phase::Failing => d.stopped(Outcome::IoFailed),
        Phase::Terminated { .. } => (d, ActionView::Exit),
    }
}

impl Driver {
    /// A driver before anything has happened, with its first action: to
    /// start the engine.
    pub fn start() -> (r: (Driver, Action))
        ensures
            r.0@ == initial(),
            r.1@ == ActionView::Spawn,
    {
        let driver = Driver { phase: Phase::Starting, options: Vec::new(), block: String::new() };
        assert(option_views(driver.options@) =~= Seq::<OptionView>::empty());
        (driver, Action::Spawn)
    }

    /// Where the driver stands.
    pub fn phase(&self) -> (r: Phase)
        ensures
            r == self@.phase,
    {
        self.phase
    }

    /// The state that the driver is in.
    pub fn stage(&self) -> (r: Stage)
        ensures
            r == self@.phase.stage(),
    {
        match self.phase {
            Phase::Starting => Stage::Starting,
            Phase::Banner | Phase::Identify | Phase::Intro { .. } | Phase::Options | Phase::Announce
            | Phase::NewGame => Stage::Handshaking,
            Phase::Terminated { .. } => Stage::Terminated,
            _ => Stage::Ready,
        }
    }

    /// The options read so far, in the order in which the engine declared
    /// them.
    pub fn options(&self) -> (r: &Vec<options::Option>)
        ensures
            option_views(r@) == self@.options,
    {
        &self.options
    }

    /// Stops the driver.
    fn stop(&mut self, outcome: Outcome) -> (action: Action)
        ensures
            (final(self)@, action@) == old(self)@.stopped(outcome),
    {
        self.phase = Phase::Terminated { outcome };
        Action::Exit
    }

    /// Performs a pending `Poll` on the queue `receiver` and takes what
    /// came of it as the next event: a command, an empty queue or a closed
    /// one.
    pub fn poll(&mut self, receiver: &mut Receiver<Command>) -> (action: Action)
        ensures
            exists|e: EventView|
                (e is Command || e is QueueEmpty || e is QueueClosed) && (final(self)@, action@)
                    == #[trigger] next(old(self)@, e),
    {
        let event = poll(receiver);
        self.step(event)
    }

    /// Takes the event `event` and says what to do next.
    pub fn step(&mut self, event: Event) -> (action: Action)
        ensures
            (final(self)@, action@) == next(old(self)@, event@),
    {
        match self.phase {
            Phase::Starting => match event {
                Event::Spawned => {
                    self.phase = Phase::Banner;
                    Action::ReadLine
                },
                _ => self.stop(Outcome::SpawnFailed),
            },
            Phase::Banner => match event {
                Event::Line(_) => {
                    self.phase = Phase::Identify;
                    Action::Write(String::from_str("uci\n"))
                },
                _ => self.stop(Outcome::HandshakeFailed),
            },
            Phase::Identify => match event {
                Event::Written => {
                    self.phase = Phase::Intro { left: INTRO_LINES };
                    Action::ReadLine
                },
                _ => self.stop(Outcome::HandshakeFailed),
            },
            Phase::Intro { left } => match event {
                Event::Line(_) => {
                    self.phase = if left > 1 {
                        Phase::Intro { left: left - 1 }
                    } else {
                        Phase::Options
                    };
                    Action::ReadLine
                },
                _ => self.stop(Outcome::HandshakeFailed),
            },
            Phase::Options => match event {
                Event::Line(line) => {
                    if same_text(line.as_str(), "uciok\n") {
                        self.phase = Phase::Announce;
                        Action::Announce
                    } else {
                        match options::Option::parse(line.as_str()) {
                            Ok(option) => {
                                assert(option_views(self.options@.push(option)) =~= option_views(
                                    self.options@,
                                ).push(option@));
                                self.options.push(option);
                                Action::ReadLine
                            },
                            Err(_) => self.stop(Outcome::HandshakeFailed),
                        }
                    }
                },
                _ => self.stop(Outcome::HandshakeFailed),
            },
            Phase::Announce => match event {
                Event::Announced => {
                    self.phase = Phase::NewGame;
                    Action::Write(String::from_str("ucinewgame\n"))
                },
                _ => self.stop(Outcome::HandshakeFailed),
            },
            Phase::NewGame => match event {
                Event::Written => {
                    self.phase = Phase::Idle;
                    Action::Poll
                },
                _ => self.stop(Outcome::HandshakeFailed),
            },
            Phase::Idle => match event {
                Event::Command(c) => {
                    self.phase = match c {
                        Command::SetPosition(_) => Phase::Sending,
                        Command::StartAnalysis => Phase::Sending,
                        Command::StopAnalysis => Phase::Stopping,
                        Command::RequestEvaluation => Phase::Evaluating,
                    };
                    Action::Write(c.instruction())
                },
                Event::QueueEmpty => Action::Poll,
                Event::QueueClosed => self.stop(Outcome::Closed),
                _ => self.stop(Outcome::IoFailed),
            },
            Phase::Sending => match event {
                Event::Written => {
                    self.phase = Phase::Idle;
                    Action::Poll
                },
                _ => self.stop(Outcome::IoFailed),
            },
            Phase::Stopping => match event {
                Event::Written => {
                    self.phase = Phase::BestMove;
                    Action::ReadLine
                },
                _ => self.stop(Outcome::IoFailed),
            },
            Phase::BestMove => match event {
                Event::Line(_) => {
                    self.phase = Phase::Idle;
                    Action::Poll
                },
                _ => self.stop(Outcome::IoFailed),
            },
            Phase::Evaluating => match event {
                Event::Written => {
                    self.phase = Phase::Draining { left: EVAL_LINES };
                    self.block = String::new();
                    Action::ReadLine
                },
                _ => {
                    self.phase = Phase::Failing;
                    Action::Publish(Err(EvalFailure::Io))
                },
            },
            Phase::Draining { left } => match event {
                Event::Line(line) => {
                    self.block.append(line.as_str());
                    if left > 1 {
                        self.phase = Phase::Draining { left: left - 1 };
                        Action::ReadLine
                    } else {
                        self.phase = Phase::Publishing;
                        match Eval::parse(self.block.as_str()) {
                            Ok(eval) => Action::Publish(Ok(eval)),
                            Err(e) => Action::Publish(Err(EvalFailure::Malformed(e))),
                        }
                    }
                },
                _ => {
                    self.phase = Phase::Failing;
                    Action::Publish(Err(EvalFailure::Io))
                },
            },
            Phase::Publishing => match event {
                Event::Published => {
                    self.phase = Phase::Idle;
                    Action::Poll
                },
                _ => self.stop(Outcome::IoFailed),
            },
            Phase::Failing => self.stop(Outcome::IoFailed),
            Phase::Terminated { .. } => Action::Exit,
        }
    }
}

/// Whatever came before, a ready driver serves `stop` by writing the
/// instruction and reading exactly one line: after that line it polls again,
/// and nothing else about it has changed.
pub proof fn law_stop_reads_one_line(d: DriverView, line: Seq<char>)
    requires
        d.phase == Phase::Idle,
    ensures
        ({
            let (d1, a1) = next(d, EventView::Command(CommandView::StopAnalysis));
            let (d2, a2) = next(d1, EventView::Written);
            let (d3, a3) = next(d2, EventView::Line(line));
            &&& a1 == ActionView::Write("stop\n"@)
            &&& a2 == ActionView::ReadLine
            &&& a3 == ActionView::Poll
            &&& d3 == d
        }),
{
}

/// A ready driver turns a command into its instruction at once, and polls
/// for the next command only from the idle phase: no command is taken while
/// another is being served.
pub proof fn law_one_command_at_a_time(d: DriverView, e: EventView)
    ensures
        ({
            let (d1, a) = next(d, e);
            &&& a is Poll ==> d1.phase == Phase::Idle
            &&& d.phase == Phase::Idle && e is Command ==> a == ActionView::Write(
                e->Command_0.instruction(),
            )
            &&& e is Command && d.phase != Phase::Idle ==> !(a is Write)
        }),
{
}

/// An evaluation is owed from the moment `eval` is taken from the queue
/// until it is published. Whatever happens, failures included, a driver that
/// owes one publishes before it does anything but read, and a driver that
/// owes none publishes nothing but the evaluation it has just read in full.
pub proof fn law_one_publication_per_request(d: DriverView, e: EventView)
    ensures
        ({
            let (d1, a) = next(d, e);
            &&& !d.phase.owes_result() && d1.phase.owes_result() <==> d.phase == Phase::Idle && e
                == EventView::Command(CommandView::RequestEvaluation)
            &&& d.phase.owes_result() && !d1.phase.owes_result() <==> a is Publish
            &&& d.phase.owes_result() && d1.phase.owes_result() ==> a is ReadLine
        }),
{
}

/// The driver never leaves the terminated state, and never goes back from
/// ready to the handshake or from the handshake to starting.
pub proof fn law_stages_advance(d: DriverView, e: EventView)
    ensures
        ({
            let before = d.phase.stage();
            let after = next(d, e).0.phase.stage();
            &&& before == Stage::Terminated ==> after == Stage::Terminated && next(d, e).1
                == ActionView::Exit
            &&& before == Stage::Ready ==> after == Stage::Ready || after == Stage::Terminated
            &&& before == Stage::Handshaking ==> after != Stage::Starting
            &&& next(d, e).1 is Exit <==> after == Stage::Terminated
        }),
{
}

/// What a failed read or write does: during the handshake it stops the
/// driver as failed in the handshake; while a command without a waiting
/// caller is served it stops the driver as failed in its input or output;
/// while an evaluation is owed it has the failure published first, and the
/// driver stops right after.
pub proof fn law_failures(d: DriverView, e: EventView)
    ensures
        d.phase.stage() == Stage::Handshaking ==> next(d, EventView::IoFailed) == d.stopped(
            Outcome::HandshakeFailed,
        ),
        d.phase.stage() == Stage::Ready && !d.phase.owes_result() && d.phase != Phase::Failing
            ==> next(d, EventView::IoFailed) == d.stopped(Outcome::IoFailed),
        d.phase.owes_result() ==> next(d, EventView::IoFailed) == (
            d.at(Phase::Failing),
            ActionView::Publish(Err(EvalFailure::Io)),
        ),
        d.phase == Phase::Failing ==> next(d, e) == d.stopped(Outcome::IoFailed),
{
}

} // verus!
