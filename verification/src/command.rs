//! The requests that a caller may put to the driver, and the instruction
//! that each one becomes on the engine's input.

use vstd::prelude::*;
use vstd::string::StringExecFns;

verus! {

/// One request to the driver.
#[derive(Debug, Clone, PartialEq, Eq)]
pub enum Command {
    /// Set the position to analyse, given in Forsyth-Edwards notation.
    SetPosition(String),
    /// Start analysing the current position.
    StartAnalysis,
    /// Stop analysing.
    StopAnalysis,
    /// Ask for a static evaluation of the current position.
    RequestEvaluation,
}

/// What a `Command` holds, as mathematical values.
pub enum CommandView {
    SetPosition(Seq<char>),
    StartAnalysis,
    StopAnalysis,
    RequestEvaluation,
}

impl View for Command {
    type V = CommandView;

    open spec fn view(&self) -> CommandView {
        match self {
            Command::SetPosition(fen) => CommandView::SetPosition(fen@),
            Command::StartAnalysis => CommandView::StartAnalysis,
            Command::StopAnalysis => CommandView::StopAnalysis,
            Command::RequestEvaluation => CommandView::RequestEvaluation,
        }
    }
}

impl CommandView {
    /// The line that the command becomes on the engine's input.
    pub open spec fn instruction(self) -> Seq<char> {
        match self {
            CommandView::SetPosition(fen) => "position fen "@ + fen + "\n"@,
            CommandView::StartAnalysis => "go\n"@,
            CommandView::StopAnalysis => "stop\n"@,
            CommandView::RequestEvaluation => "eval\n"@,
        }
    }

    /// Tells whether the engine answers the command with output that the
    /// driver has to read before it serves the next one.
    pub open spec fn is_answered(self) -> bool {
        self is StopAnalysis || self is RequestEvaluation
    }
}

impl Command {
    /// The line to write to the engine for this command.
    pub fn instruction(&self) -> (r: String)
        ensures
            r@ == self@.instruction(),
    {
        match self {
            Command::SetPosition(fen) => {
                let mut line = String::from_str("position fen ");
                line.append(fen.as_str());
                line.append("\n");
                line
            },
            Command::StartAnalysis => String::from_str("go\n"),
            Command::StopAnalysis => String::from_str("stop\n"),
            Command::RequestEvaluation => String::from_str("eval\n"),
        }
    }
}

} // verus!
