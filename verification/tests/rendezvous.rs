use std::sync::atomic::{AtomicU64, Ordering};
use uci_front::rendezvous::Wait;

#[test]
fn wait_gives_the_value_once_the_flag_is_set() {
    let cell = Wait::new(17u32);
    cell.stop_waiting();
    assert_eq!(*cell.wait(), 17);
    // The flag stays set: a second wait without `set_waiting` reads the
    // same value again at once.
    assert_eq!(*cell.wait(), 17);
    assert_eq!(cell.data, 17);
}

#[test]
fn a_value_stored_before_the_flag_is_set_is_the_value_read() {
    let cell = Wait::new(AtomicU64::new(1));
    cell.set_waiting();
    cell.data.store(2, Ordering::SeqCst);
    cell.stop_waiting();
    assert_eq!(cell.wait().load(Ordering::SeqCst), 2);
}

#[test]
fn rounds_alternate() {
    let cell = Wait::new(AtomicU64::new(0));
    for round in 1..50u64 {
        cell.set_waiting();
        cell.data.store(round, Ordering::SeqCst);
        cell.stop_waiting();
        assert_eq!(cell.wait().load(Ordering::SeqCst), round);
    }
}

#[test]
fn a_stale_flag_lets_a_stale_value_through() {
    let cell = Wait::new(AtomicU64::new(5));
    cell.set_waiting();
    cell.data.store(6, Ordering::SeqCst);
    cell.stop_waiting();
    assert_eq!(cell.wait().load(Ordering::SeqCst), 6);
    // No `set_waiting` before the next request: the flag of the last round
    // is still set, and `wait` returns what is there.
    assert_eq!(cell.wait().load(Ordering::SeqCst), 6);
    cell.set_waiting();
    cell.stop_waiting();
    assert_eq!(cell.wait().load(Ordering::SeqCst), 6);
}

#[test]
fn a_published_value_is_collected() {
    let cell = Wait::new(crossbeam::atomic::AtomicCell::new((0u64, [0.0f64; 3])));
    cell.set_waiting();
    cell.publish((72, [0.30, 0.20, 0.10]));
    assert_eq!(cell.collect(), (72, [0.30, 0.20, 0.10]));
    cell.set_waiting();
    cell.publish((3, [1.0, 2.0, 3.0]));
    assert_eq!(cell.collect(), (3, [1.0, 2.0, 3.0]));
    assert_eq!(cell.wait().load(), (3, [1.0, 2.0, 3.0]));
}
