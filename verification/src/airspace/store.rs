//! The airspace shared between the task that writes it and those that read
//! it, behind a lock of the standard library.

use crate::airspace::Airspace;
use crate::channel::drain;
use crate::thread_manager::Runnable;
use crate::types::Aircraft;
use crossbeam_channel::Receiver;
use std::sync::{Arc, RwLock, RwLockReadGuard, RwLockWriteGuard};
use vstd::prelude::*;

verus! {

/// `std::sync::RwLock`: what it protects is seen through its guards only.
#[verifier::external_type_specification]
#[verifier::external_body]
#[verifier::reject_recursive_types(T)]
pub struct ExRwLock<T: ?Sized>(RwLock<T>);

/// `std::sync::RwLockReadGuard`: the right to read.
#[verifier::external_type_specification]
#[verifier::external_body]
#[verifier::reject_recursive_types(T)]
pub struct ExRwLockReadGuard<'a, T: ?Sized>(RwLockReadGuard<'a, T>);

/// `std::sync::RwLockWriteGuard`: the right to write.
#[verifier::external_type_specification]
#[verifier::external_body]
#[verifier::reject_recursive_types(T)]
pub struct ExRwLockWriteGuard<'a, T: ?Sized + 'a>(RwLockWriteGuard<'a, T>);

/// `RwLock::new`: a lock that nobody holds.
pub assume_specification<T>[ RwLock::<T>::new ](t: T) -> (lock: RwLock<T>)
;

/// `RwLock::write`, which waits until nobody holds the lock. `None` stands
/// for a lock that is poisoned: a writer has panicked while it held it.
#[verifier::external_body]
fn lock_to_write(lock: &RwLock<Airspace>) -> (guard: Option<RwLockWriteGuard<'_, Airspace>>) {
    lock.write().ok()
}

/// `RwLock::read`, which waits until no writer holds the lock. `None`
/// stands for a lock that is poisoned.
#[verifier::external_body]
fn lock_to_read(lock: &RwLock<Airspace>) -> (guard: Option<RwLockReadGuard<'_, Airspace>>) {
    lock.read().ok()
}

/// `DerefMut::deref_mut` of the guard: the airspace that the lock protects,
/// for as long as the guard is held.
#[verifier::external_body]
fn protected<'a, 'b>(guard: &'a mut RwLockWriteGuard<'b, Airspace>) -> (airspace: &'a mut Airspace) {
    &mut **guard
}

/// The task that keeps the airspace: it takes the reports from its queue
/// into the airspace that the viewers read.
pub struct AirspaceStore {
    inner: Arc<RwLock<Airspace>>,
    aircraft_receiver: Receiver<Aircraft>,
}

impl AirspaceStore {
    /// The queue that the reports come from.
    pub closed spec fn reports_in(&self) -> Receiver<Aircraft> {
        self.aircraft_receiver
    }

    /// The lock that the airspace lies behind.
    pub closed spec fn shared(&self) -> Arc<RwLock<Airspace>> {
        self.inner
    }

    /// A store with an empty airspace whose window is
    /// `airspace_time_buffer` seconds long.
    pub fn new(aircraft_receiver: Receiver<Aircraft>, airspace_time_buffer: u32) -> (store: Self)
        ensures
            store.reports_in() == aircraft_receiver,
    {
        let empty_airspace = Airspace::new(airspace_time_buffer);
        AirspaceStore { inner: Arc::new(RwLock::new(empty_airspace)), aircraft_receiver }
    }

    /// A handle to read the airspace of this store with.
    pub fn get_airspace_viewer(&self) -> (viewer: AirspaceViewer)
        ensures
            viewer.shared() == self.shared(),
    {
        AirspaceViewer { inner: self.inner.clone() }
    }
}

/// Updates the airspace behind `guard` with `aircrafts`, if the lock was
/// had, and tells whether the task goes on: it does unless the lock is
/// poisoned, for which `None` stands.
fn update_behind(guard: Option<RwLockWriteGuard<'_, Airspace>>, aircrafts: Vec<Aircraft>) -> (goes_on:
    bool)
    ensures
        goes_on == guard is Some,
{
    match guard {
        Some(mut guard) => {
            let airspace = protected(&mut guard);
            airspace.update(aircrafts);
            true
        },
        None => false,
    }
}

impl Runnable for AirspaceStore {
    /// Takes the reports that wait in the queue and updates the airspace
    /// with them, all at once and with no reader looking. The task ends
    /// when the lock is poisoned. The store keeps its queue and its lock.
    fn step(&mut self) -> (goes_on: bool)
        ensures
            final(self).reports_in() == old(self).reports_in(),
            final(self).shared() == old(self).shared(),
    {
        let aircrafts = drain(&self.aircraft_receiver);
        update_behind(lock_to_write(&self.inner), aircrafts)
    }
}

/// A handle to read the airspace with.
pub struct AirspaceViewer {
    inner: Arc<RwLock<Airspace>>,
}

impl AirspaceViewer {
    /// The lock that the airspace lies behind.
    pub closed spec fn shared(&self) -> Arc<RwLock<Airspace>> {
        self.inner
    }

    /// Holds the airspace still for reading: while the guard lives, no
    /// update takes place. `None` stands for a lock that is poisoned.
    pub fn read(&self) -> Option<RwLockReadGuard<'_, Airspace>> {
        lock_to_read(&self.inner)
    }
}

impl Clone for AirspaceViewer {
    fn clone(&self) -> (viewer: Self)
        ensures
            viewer.shared() == self.shared(),
    {
        AirspaceViewer { inner: self.inner.clone() }
    }
}

} // verus!
