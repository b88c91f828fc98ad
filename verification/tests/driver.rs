use uci_front::command::Command;
use uci_front::driver::{
    Action, Driver, EvalFailure, Event, Outcome, Phase, Stage, EVAL_LINES, INTRO_LINES,
};
use uci_front::eval::{Eval, EvalError};
use uci_front::options::{Data, Option};

fn line(text: &str) -> Event {
    Event::Line(text.to_string())
}

fn write(text: &str) -> Action {
    Action::Write(text.to_string())
}

/// A driver that has been through the handshake with the given option lines.
fn ready(option_lines: &[&str]) -> Driver {
    let (mut driver, first) = Driver::start();
    assert_eq!(first, Action::Spawn);
    assert_eq!(driver.stage(), Stage::Starting);
    assert_eq!(driver.step(Event::Spawned), Action::ReadLine);
    assert_eq!(driver.stage(), Stage::Handshaking);
    assert_eq!(driver.step(line("Stockfish 16 by the Stockfish developers\n")), write("uci\n"));
    assert_eq!(driver.step(Event::Written), Action::ReadLine);
    for i in 0..INTRO_LINES {
        assert_eq!(driver.step(line(&format!("intro {i}\n"))), Action::ReadLine);
    }
    for option in option_lines {
        assert_eq!(driver.phase(), Phase::Options);
        assert_eq!(driver.step(line(option)), Action::ReadLine);
    }
    assert_eq!(driver.step(line("uciok\n")), Action::Announce);
    assert_eq!(driver.step(Event::Announced), write("ucinewgame\n"));
    assert_eq!(driver.stage(), Stage::Handshaking);
    assert_eq!(driver.step(Event::Written), Action::Poll);
    assert_eq!(driver.phase(), Phase::Idle);
    assert_eq!(driver.stage(), Stage::Ready);
    driver
}

/// Feeds the driver an evaluation dump of `EVAL_LINES` lines that ends in
/// `tail`, and gives back what it publishes.
fn evaluate(driver: &mut Driver, tail: &[&str]) -> Action {
    assert_eq!(driver.step(Event::Command(Command::RequestEvaluation)), write("eval\n"));
    assert_eq!(driver.step(Event::Written), Action::ReadLine);
    let filler = EVAL_LINES - tail.len();
    for i in 0..filler {
        assert_eq!(driver.step(line(&format!("filler line {i}\n"))), Action::ReadLine);
    }
    for (i, text) in tail.iter().enumerate() {
        let action = driver.step(line(text));
        if i + 1 < tail.len() {
            assert_eq!(action, Action::ReadLine);
        } else {
            return action;
        }
    }
    unreachable!()
}

#[test]
fn handshake_collects_the_options_in_order() {
    let driver = ready(&[
        "option name Threads type spin default 1 min 1 max 1024\n",
        "option name Clear Hash type button\n",
        "option name Ponder type check default false\n",
    ]);
    assert_eq!(
        driver.options(),
        &vec![
            Option {
                name: "Threads".to_string(),
                data: Data::Spin { value: 1, min: 1, max: 1024 }
            },
            Option { name: "Clear Hash".to_string(), data: Data::Button },
            Option { name: "Ponder".to_string(), data: Data::Check { value: false } },
        ]
    );
}

#[test]
fn handshake_without_options() {
    let driver = ready(&[]);
    assert!(driver.options().is_empty());
}

#[test]
fn spawn_failure_stops_the_driver() {
    let (mut driver, _) = Driver::start();
    assert_eq!(driver.step(Event::SpawnFailed), Action::Exit);
    assert_eq!(driver.phase(), Phase::Terminated { outcome: Outcome::SpawnFailed });
    assert_eq!(driver.stage(), Stage::Terminated);
    assert_eq!(driver.step(Event::Spawned), Action::Exit);
    assert_eq!(driver.phase(), Phase::Terminated { outcome: Outcome::SpawnFailed });
}

#[test]
fn malformed_option_fails_the_handshake() {
    let (mut driver, _) = Driver::start();
    driver.step(Event::Spawned);
    driver.step(line("banner\n"));
    driver.step(Event::Written);
    for _ in 0..INTRO_LINES {
        driver.step(line("\n"));
    }
    assert_eq!(driver.step(line("option name x type combo default a var a\n")), Action::Exit);
    assert_eq!(driver.phase(), Phase::Terminated { outcome: Outcome::HandshakeFailed });
}

#[test]
fn end_of_output_before_uciok_fails_the_handshake() {
    let (mut driver, _) = Driver::start();
    driver.step(Event::Spawned);
    driver.step(line("banner\n"));
    driver.step(Event::Written);
    for _ in 0..INTRO_LINES {
        driver.step(line("\n"));
    }
    assert_eq!(driver.step(line("option name Hash type spin default 16 min 1 max 64\n")), Action::ReadLine);
    assert_eq!(driver.step(line("")), Action::Exit);
    assert_eq!(driver.phase(), Phase::Terminated { outcome: Outcome::HandshakeFailed });
}

#[test]
fn uciok_must_be_the_whole_line() {
    let (mut driver, _) = Driver::start();
    driver.step(Event::Spawned);
    driver.step(line("banner\n"));
    driver.step(Event::Written);
    for _ in 0..INTRO_LINES {
        driver.step(line("\n"));
    }
    assert_eq!(driver.step(line("uciok")), Action::Exit);
    assert_eq!(driver.phase(), Phase::Terminated { outcome: Outcome::HandshakeFailed });
}

#[test]
fn io_failure_fails_the_handshake_in_every_phase() {
    for steps in 1..(4 + INTRO_LINES) {
        let (mut driver, _) = Driver::start();
        let script = [
            Event::Spawned,
            line("banner\n"),
            Event::Written,
            line("a\n"),
            line("b\n"),
            line("c\n"),
            line("option name Clear Hash type button\n"),
        ];
        for event in script.iter().take(steps) {
            assert_ne!(driver.step(event.clone()), Action::Exit);
        }
        assert_eq!(driver.stage(), Stage::Handshaking);
        assert_eq!(driver.step(Event::IoFailed), Action::Exit);
        assert_eq!(driver.phase(), Phase::Terminated { outcome: Outcome::HandshakeFailed });
    }
}

#[test]
fn commands_become_instructions() {
    let mut driver = ready(&[]);
    let fen = "rnbqkbnr/pppppppp/8/8/8/8/PPPPPPPP/RNBQKBNR w KQkq - 0 1";
    assert_eq!(
        driver.step(Event::Command(Command::SetPosition(fen.to_string()))),
        write("position fen rnbqkbnr/pppppppp/8/8/8/8/PPPPPPPP/RNBQKBNR w KQkq - 0 1\n")
    );
    assert_eq!(driver.phase(), Phase::Sending);
    assert_eq!(driver.step(Event::Written), Action::Poll);
    assert_eq!(driver.step(Event::Command(Command::StartAnalysis)), write("go\n"));
    assert_eq!(driver.step(Event::Written), Action::Poll);
    assert_eq!(driver.phase(), Phase::Idle);
}

#[test]
fn empty_queue_polls_again() {
    let mut driver = ready(&[]);
    for _ in 0..5 {
        assert_eq!(driver.step(Event::QueueEmpty), Action::Poll);
        assert_eq!(driver.phase(), Phase::Idle);
    }
}

#[test]
fn closed_queue_ends_the_driver() {
    let mut driver = ready(&[]);
    assert_eq!(driver.step(Event::QueueClosed), Action::Exit);
    assert_eq!(driver.phase(), Phase::Terminated { outcome: Outcome::Closed });
    assert_eq!(driver.step(Event::QueueEmpty), Action::Exit);
}

#[test]
fn stop_without_start_reads_exactly_one_line() {
    let mut driver = ready(&[]);
    assert_eq!(driver.step(Event::Command(Command::StopAnalysis)), write("stop\n"));
    assert_eq!(driver.phase(), Phase::Stopping);
    assert_eq!(driver.step(Event::Written), Action::ReadLine);
    assert_eq!(driver.phase(), Phase::BestMove);
    assert_eq!(driver.step(line("bestmove e2e4 ponder e7e5\n")), Action::Poll);
    assert_eq!(driver.phase(), Phase::Idle);
    // The driver is not stuck: it serves the next command.
    assert_eq!(driver.step(Event::Command(Command::StartAnalysis)), write("go\n"));
}

#[test]
fn evaluation_reflects_the_last_position_set() {
    let mut driver = ready(&[]);
    let mut written = Vec::new();
    for command in [
        Command::SetPosition("A".to_string()),
        Command::SetPosition("B".to_string()),
    ] {
        match driver.step(Event::Command(command)) {
            Action::Write(text) => written.push(text),
            other => panic!("{other:?}"),
        }
        assert_eq!(driver.step(Event::Written), Action::Poll);
    }
    let published = evaluate(
        &mut driver,
        &["... 0 0.10 0\n", "... 0 0.20 0\n", "... 0 0.30 0\n", "Final evaluation: none\n"],
    );
    written.push("eval\n".to_string());
    assert_eq!(written, vec!["position fen A\n", "position fen B\n", "eval\n"]);
    assert_eq!(
        published,
        Action::Publish(Ok(Eval {
            length: EVAL_LINES,
            evals: ["0.30".to_string(), "0.20".to_string(), "0.10".to_string()]
        }))
    );
    assert_eq!(driver.phase(), Phase::Publishing);
    assert_eq!(driver.step(Event::Published), Action::Poll);
    assert_eq!(driver.phase(), Phase::Idle);
}

#[test]
fn each_evaluation_starts_from_an_empty_block() {
    let mut driver = ready(&[]);
    let first = evaluate(&mut driver, &["a b 1\n", "a b 2\n", "a b 3\n", "end\n"]);
    assert!(matches!(first, Action::Publish(Ok(_))));
    driver.step(Event::Published);
    let second = evaluate(&mut driver, &["a b 4\n", "a b 5\n", "a b 6\n", "end\n"]);
    assert_eq!(
        second,
        Action::Publish(Ok(Eval {
            length: EVAL_LINES,
            evals: ["6".to_string(), "5".to_string(), "4".to_string()]
        }))
    );
}

#[test]
fn malformed_evaluation_is_published_as_an_error() {
    let mut driver = ready(&[]);
    let published = evaluate(&mut driver, &["a b 1\n", "a b\n", "a b 3\n", "end\n"]);
    assert_eq!(published, Action::Publish(Err(EvalFailure::Malformed(EvalError::FieldMissing))));
    assert_eq!(driver.step(Event::Published), Action::Poll);
    assert_eq!(driver.stage(), Stage::Ready);
    let published = evaluate(&mut driver, &["a b 1\n", "a b x\n", "a b 3\n", "end\n"]);
    assert_eq!(published, Action::Publish(Err(EvalFailure::Malformed(EvalError::NotNumeric))));
}

#[test]
fn end_of_output_during_an_evaluation() {
    let mut driver = ready(&[]);
    assert_eq!(driver.step(Event::Command(Command::RequestEvaluation)), write("eval\n"));
    assert_eq!(driver.step(Event::Written), Action::ReadLine);
    for _ in 1..EVAL_LINES {
        assert_eq!(driver.step(line("")), Action::ReadLine);
    }
    assert_eq!(
        driver.step(line("")),
        Action::Publish(Err(EvalFailure::Malformed(EvalError::TooFewLines)))
    );
}

#[test]
fn failed_read_during_an_evaluation_is_published_before_the_driver_stops() {
    let mut driver = ready(&[]);
    driver.step(Event::Command(Command::RequestEvaluation));
    driver.step(Event::Written);
    driver.step(line("one\n"));
    assert_eq!(driver.step(Event::IoFailed), Action::Publish(Err(EvalFailure::Io)));
    assert_eq!(driver.phase(), Phase::Failing);
    assert_eq!(driver.step(Event::Published), Action::Exit);
    assert_eq!(driver.phase(), Phase::Terminated { outcome: Outcome::IoFailed });
}

#[test]
fn failed_write_of_an_evaluation_request_is_published() {
    let mut driver = ready(&[]);
    driver.step(Event::Command(Command::RequestEvaluation));
    assert_eq!(driver.step(Event::IoFailed), Action::Publish(Err(EvalFailure::Io)));
    assert_eq!(driver.step(Event::Published), Action::Exit);
    assert_eq!(driver.phase(), Phase::Terminated { outcome: Outcome::IoFailed });
}

#[test]
fn failed_write_stops_the_driver() {
    for command in [
        Command::SetPosition("8/8/8/8/8/8/8/8 w - - 0 1".to_string()),
        Command::StartAnalysis,
        Command::StopAnalysis,
    ] {
        let mut driver = ready(&[]);
        driver.step(Event::Command(command));
        assert_eq!(driver.step(Event::IoFailed), Action::Exit);
        assert_eq!(driver.phase(), Phase::Terminated { outcome: Outcome::IoFailed });
    }
}

#[test]
fn failed_read_after_stop_stops_the_driver() {
    let mut driver = ready(&[]);
    driver.step(Event::Command(Command::StopAnalysis));
    driver.step(Event::Written);
    assert_eq!(driver.step(Event::IoFailed), Action::Exit);
    assert_eq!(driver.phase(), Phase::Terminated { outcome: Outcome::IoFailed });
}

#[test]
fn an_event_that_answers_nothing_counts_as_a_failure() {
    let mut driver = ready(&[]);
    assert_eq!(driver.step(Event::Written), Action::Exit);
    assert_eq!(driver.phase(), Phase::Terminated { outcome: Outcome::IoFailed });
    let mut driver = ready(&[]);
    driver.step(Event::Command(Command::StartAnalysis));
    assert_eq!(driver.step(Event::Command(Command::StopAnalysis)), Action::Exit);
    let (mut driver, _) = Driver::start();
    assert_eq!(driver.step(Event::Written), Action::Exit);
    assert_eq!(driver.phase(), Phase::Terminated { outcome: Outcome::SpawnFailed });
}

#[test]
fn instructions_of_the_commands() {
    assert_eq!(Command::SetPosition("x y".to_string()).instruction(), "position fen x y\n");
    assert_eq!(Command::SetPosition(String::new()).instruction(), "position fen \n");
    assert_eq!(Command::StartAnalysis.instruction(), "go\n");
    assert_eq!(Command::StopAnalysis.instruction(), "stop\n");
    assert_eq!(Command::RequestEvaluation.instruction(), "eval\n");
}

#[test]
fn a_long_session_is_served_in_order() {
    let mut driver = ready(&[]);
    let mut written = Vec::new();
    let mut expected = Vec::new();
    for round in 0..20 {
        let commands = [
            Command::SetPosition(format!("fen {round}")),
            Command::StartAnalysis,
            Command::StopAnalysis,
            Command::RequestEvaluation,
        ];
        for command in commands {
            expected.push(command.instruction());
            let answered = command.clone();
            match driver.step(Event::Command(command)) {
                Action::Write(text) => written.push(text),
                other => panic!("{other:?}"),
            }
            match answered {
                Command::StopAnalysis => {
                    assert_eq!(driver.step(Event::Written), Action::ReadLine);
                    assert_eq!(driver.step(line("bestmove a2a3\n")), Action::Poll);
                }
                Command::RequestEvaluation => {
                    assert_eq!(driver.step(Event::Written), Action::ReadLine);
                    for i in 1..EVAL_LINES {
                        assert_eq!(driver.step(line(&format!("a b {i}\n"))), Action::ReadLine);
                    }
                    assert!(matches!(driver.step(line("end\n")), Action::Publish(Ok(_))));
                    assert_eq!(driver.step(Event::Published), Action::Poll);
                }
                _ => assert_eq!(driver.step(Event::Written), Action::Poll),
            }
            assert_eq!(driver.phase(), Phase::Idle);
        }
    }
    assert_eq!(written, expected);
}
