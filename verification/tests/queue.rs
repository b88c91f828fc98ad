use crossbeam::atomic::AtomicCell;
use std::sync::Arc;
use uci_front::command::Command;
use uci_front::driver::{Action, Driver, Event, Outcome, Phase, INTRO_LINES};
use uci_front::engine::Engine;
use uci_front::queue::{command_queue, offer, poll, submit, QUEUE_DEPTH};
use uci_front::rendezvous::Wait;

fn ready() -> Driver {
    let (mut driver, _) = Driver::start();
    driver.step(Event::Spawned);
    driver.step(Event::Line("banner\n".to_string()));
    driver.step(Event::Written);
    for _ in 0..INTRO_LINES {
        driver.step(Event::Line("\n".to_string()));
    }
    driver.step(Event::Line("uciok\n".to_string()));
    driver.step(Event::Announced);
    assert_eq!(driver.step(Event::Written), Action::Poll);
    driver
}

#[test]
fn commands_are_taken_in_the_order_offered() {
    let (mut sender, mut receiver) = command_queue();
    assert_eq!(poll(&mut receiver), Event::QueueEmpty);
    offer(&mut sender, Command::SetPosition("A".to_string()));
    offer(&mut sender, Command::SetPosition("B".to_string()));
    offer(&mut sender, Command::RequestEvaluation);
    assert_eq!(poll(&mut receiver), Event::Command(Command::SetPosition("A".to_string())));
    assert_eq!(poll(&mut receiver), Event::Command(Command::SetPosition("B".to_string())));
    assert_eq!(poll(&mut receiver), Event::Command(Command::RequestEvaluation));
    assert_eq!(poll(&mut receiver), Event::QueueEmpty);
    assert_eq!(poll(&mut receiver), Event::QueueEmpty);
}

#[test]
fn a_queue_without_senders_is_closed_once_drained() {
    let (mut sender, mut receiver) = command_queue();
    offer(&mut sender, Command::StopAnalysis);
    drop(sender);
    assert_eq!(poll(&mut receiver), Event::Command(Command::StopAnalysis));
    assert_eq!(poll(&mut receiver), Event::QueueClosed);
    assert_eq!(poll(&mut receiver), Event::QueueClosed);
}

#[test]
fn a_full_queue_drops_what_is_offered() {
    let (mut sender, mut receiver) = command_queue();
    for i in 0..3 * QUEUE_DEPTH {
        offer(&mut sender, Command::SetPosition(i.to_string()));
    }
    let mut taken = Vec::new();
    while let Event::Command(command) = poll(&mut receiver) {
        taken.push(command);
    }
    // The buffer, and the one slot that the sender has for itself.
    assert_eq!(QUEUE_DEPTH, 8);
    assert_eq!(taken.len(), QUEUE_DEPTH + 1);
    for (i, command) in taken.iter().enumerate() {
        assert_eq!(*command, Command::SetPosition(i.to_string()));
    }
    // Room again: the next offer is accepted.
    offer(&mut sender, Command::StartAnalysis);
    assert_eq!(poll(&mut receiver), Event::Command(Command::StartAnalysis));
}

#[test]
fn an_offer_to_a_queue_without_receiver_is_dropped() {
    let (mut sender, receiver) = command_queue();
    drop(receiver);
    offer(&mut sender, Command::StartAnalysis);
    offer(&mut sender, Command::StopAnalysis);
}

#[test]
fn the_handle_offers_one_command_per_call() {
    let (sender, mut receiver) = command_queue();
    let cell = Arc::new(Wait::new(AtomicCell::new(0u64)));
    let mut engine = Engine::connect(sender, Arc::clone(&cell));
    engine.set_fen("rnbqkbnr/pppppppp/8/8/8/8/PPPPPPPP/RNBQKBNR w KQkq - 0 1".to_string());
    engine.start();
    engine.stop();
    assert_eq!(
        poll(&mut receiver),
        Event::Command(Command::SetPosition(
            "rnbqkbnr/pppppppp/8/8/8/8/PPPPPPPP/RNBQKBNR w KQkq - 0 1".to_string()
        ))
    );
    assert_eq!(poll(&mut receiver), Event::Command(Command::StartAnalysis));
    assert_eq!(poll(&mut receiver), Event::Command(Command::StopAnalysis));
    assert_eq!(poll(&mut receiver), Event::QueueEmpty);
    drop(engine);
    assert_eq!(poll(&mut receiver), Event::QueueClosed);
}

#[test]
fn the_driver_serves_what_the_handle_offers() {
    let (sender, mut receiver) = command_queue();
    let cell = Arc::new(Wait::new(AtomicCell::new(0u64)));
    let mut engine = Engine::connect(sender, cell);
    let mut driver = ready();
    assert_eq!(driver.poll(&mut receiver), Action::Poll);
    engine.set_fen("A".to_string());
    engine.set_fen("B".to_string());
    engine.stop();
    assert_eq!(driver.poll(&mut receiver), Action::Write("position fen A\n".to_string()));
    assert_eq!(driver.step(Event::Written), Action::Poll);
    assert_eq!(driver.poll(&mut receiver), Action::Write("position fen B\n".to_string()));
    assert_eq!(driver.step(Event::Written), Action::Poll);
    assert_eq!(driver.poll(&mut receiver), Action::Write("stop\n".to_string()));
    assert_eq!(driver.step(Event::Written), Action::ReadLine);
    assert_eq!(driver.step(Event::Line("bestmove (none)\n".to_string())), Action::Poll);
    assert_eq!(driver.poll(&mut receiver), Action::Poll);
    drop(engine);
    assert_eq!(driver.poll(&mut receiver), Action::Exit);
    assert_eq!(driver.phase(), Phase::Terminated { outcome: Outcome::Closed });
}

#[test]
fn a_submitted_command_is_taken_in_its_turn() {
    let (mut sender, mut receiver) = command_queue();
    offer(&mut sender, Command::SetPosition("A".to_string()));
    submit(&mut sender, Command::RequestEvaluation);
    offer(&mut sender, Command::StopAnalysis);
    assert_eq!(poll(&mut receiver), Event::Command(Command::SetPosition("A".to_string())));
    assert_eq!(poll(&mut receiver), Event::Command(Command::RequestEvaluation));
    assert_eq!(poll(&mut receiver), Event::Command(Command::StopAnalysis));
    assert_eq!(poll(&mut receiver), Event::QueueEmpty);
}

#[test]
fn a_submission_to_a_queue_without_receiver_returns() {
    let (mut sender, receiver) = command_queue();
    drop(receiver);
    submit(&mut sender, Command::RequestEvaluation);
}
