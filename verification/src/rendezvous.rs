//! The rendezvous cell: one slot through which a producer hands a value to
//! one waiting consumer.
//!
//! The cell keeps a flag under a lock. The consumer clears the flag with
//! `set_waiting` just before it asks for a value, and then blocks in `wait`
//! until the flag is set. The producer stores the value and then sets the
//! flag with `stop_waiting`, which wakes the consumer. A `wait` that no
//! `set_waiting` went before does not block if the flag is still set from an
//! earlier round: it returns what the cell holds at that moment.
//!
//! The flag is shared between threads, so no contract here speaks of it:
//! what one thread wrote, another may have changed since. The same holds of
//! a value that is kept in an atomic cell.

use crossbeam::atomic::AtomicCell;
use std::sync::{Condvar, Mutex, MutexGuard};
use vstd::prelude::*;

verus! {

/// `std::sync::Mutex`, carried through without a look inside.
#[verifier::external_type_specification]
#[verifier::external_body]
#[verifier::reject_recursive_types(T)]
pub struct ExMutex<T: ?Sized>(Mutex<T>);

/// `std::sync::MutexGuard`, carried through without a look inside.
#[verifier::external_type_specification]
#[verifier::external_body]
#[verifier::reject_recursive_types(T)]
pub struct ExMutexGuard<'a, T: ?Sized + 'a>(MutexGuard<'a, T>);

/// `std::sync::Condvar`, carried through without a look inside.
#[verifier::external_type_specification]
#[verifier::external_body]
pub struct ExCondvar(Condvar);

/// `crossbeam::atomic::AtomicCell`, carried through without a look inside.
#[verifier::external_type_specification]
#[verifier::external_body]
#[verifier::reject_recursive_types(T)]
pub struct ExAtomicCell<T>(AtomicCell<T>);

/// The flag that says whether a value is ready, under its lock, and the
/// condition variable on which a waiter sleeps. Only the cell's own
/// operations reach inside.
#[derive(Debug)]
pub struct Signal {
    should_wait: Mutex<bool>,
    cond: Condvar,
}

/// A single-slot cell with a flag that says whether its value is ready.
#[derive(Debug)]
pub struct Wait<T> {
    /// The value. The producer writes it through the value's own interior
    /// mutability before it calls `stop_waiting`.
    pub data: T,
    /// The flag and what wakes the waiter.
    pub signal: Signal,
}

/// `Mutex::new`: a lock around `value`. Nothing is claimed of it.
#[verifier::external_body]
fn new_flag(value: bool) -> Mutex<bool> {
    Mutex::new(value)
}

/// `Condvar::new`: a condition variable. Nothing is claimed of it.
#[verifier::external_body]
fn new_condvar() -> Condvar {
    Condvar::new()
}

/// `Mutex::lock`: blocks until the lock is held. A lock that a panicking
/// thread left behind is taken all the same. Nothing is claimed of the flag
/// under it.
#[verifier::external_body]
fn lock_flag<'a>(flag: &'a Mutex<bool>) -> MutexGuard<'a, bool> {
    match flag.lock() {
        Ok(guard) => guard,
        Err(poisoned) => poisoned.into_inner(),
    }
}

/// Writing through a `MutexGuard`: sets the flag that the guard holds.
/// Nothing is claimed of it: the guard is opaque here.
#[verifier::external_body]
fn put_flag(guard: &mut MutexGuard<'_, bool>, value: bool) {
    **guard = value;
}

/// `Condvar::wait_while`: gives the lock up and sleeps until the flag is
/// found set after a wake-up, then holds the lock again. Nothing is claimed
/// of the flag: the guard is opaque here.
#[verifier::external_body]
fn sleep_while_clear<'a>(cond: &Condvar, guard: MutexGuard<'a, bool>) -> MutexGuard<'a, bool> {
    match cond.wait_while(guard, |ready| is_clear(*ready)) {
        Ok(guard) => guard,
        Err(poisoned) => poisoned.into_inner(),
    }
}

/// `Condvar::notify_one`: wakes one thread that sleeps on the variable, if
/// there is one.
#[verifier::external_body]
fn wake_one(cond: &Condvar) {
    cond.notify_one();
}

/// `AtomicCell::store`: puts `value` into the cell in one step. Nothing is
/// claimed of what the cell holds afterwards: another thread may store too.
#[verifier::external_body]
fn store_value<T>(cell: &AtomicCell<T>, value: T) {
    cell.store(value);
}

/// `AtomicCell::load`: copies out what the cell holds at that moment.
/// Nothing is claimed of it.
#[verifier::external_body]
fn load_value<T: Copy>(cell: &AtomicCell<T>) -> T {
    cell.load()
}

/// Tells whether the flag says that no value is ready.
fn is_clear(ready: bool) -> (r: bool)
    ensures
        r == !ready,
{
    !ready
}

impl<T> Wait<T> {
    /// A cell that holds `data`, its flag cleared.
    pub fn new(data: T) -> (r: Self)
        ensures
            r.data == data,
    {
        Wait { data, signal: Signal { should_wait: new_flag(false), cond: new_condvar() } }
    }

    /// Blocks until the flag is set, then gives the value that the cell
    /// holds.
    pub fn wait(&self) -> (r: &T)
        ensures
            *r == self.data,
    {
        let guard = lock_flag(&self.signal.should_wait);
        let _guard = sleep_while_clear(&self.signal.cond, guard);
        &self.data
    }

    /// Clears the flag. The consumer calls this just before it asks for a
    /// value.
    pub fn set_waiting(&self) {
        let mut guard = lock_flag(&self.signal.should_wait);
        put_flag(&mut guard, false);
    }

    /// Sets the flag and wakes one waiter. The producer calls this once it
    /// has stored the value.
    pub fn stop_waiting(&self) {
        {
            let mut guard = lock_flag(&self.signal.should_wait);
            put_flag(&mut guard, true);
        }
        wake_one(&self.signal.cond);
    }
}

impl<T: Copy> Wait<AtomicCell<T>> {
    /// The producer's part of a round: stores `value`, then sets the flag
    /// and wakes the waiter. The value is in place before the flag says so.
    pub fn publish(&self, value: T) {
        store_value(&self.data, value);
        self.stop_waiting();
    }

    /// The consumer's part of a round after the request: blocks until the
    /// flag is set, then copies the value out.
    pub fn collect(&self) -> T {
        load_value(self.wait())
    }
}

} // verus!
