//! The locks of the standard library, as far as the shared handles use them.
//!
//! What a lock holds at the moment it is taken depends on the other threads,
//! so nothing is claimed about the value behind a guard: the functions that
//! work on it are verified for every value it may have.

use std::sync::Mutex;
use std::sync::MutexGuard;
use std::sync::RwLock;
use std::sync::RwLockReadGuard;
use std::sync::RwLockWriteGuard;
use vstd::prelude::*;

verus! {

/// `std::sync::Mutex`, carried through as an opaque value.
#[verifier::external_type_specification]
#[verifier::external_body]
#[verifier::reject_recursive_types(T)]
pub struct ExMutex<T: ?Sized>(Mutex<T>);

/// `std::sync::MutexGuard`, carried through as an opaque value.
#[verifier::external_type_specification]
#[verifier::external_body]
#[verifier::reject_recursive_types(T)]
pub struct ExMutexGuard<'a, T: ?Sized + 'a>(MutexGuard<'a, T>);

/// `std::sync::RwLock`, carried through as an opaque value.
#[verifier::external_type_specification]
#[verifier::external_body]
#[verifier::reject_recursive_types(T)]
pub struct ExRwLock<T: ?Sized>(RwLock<T>);

/// `std::sync::RwLockReadGuard`, carried through as an opaque value.
#[verifier::external_type_specification]
#[verifier::external_body]
#[verifier::reject_recursive_types(T)]
pub struct ExRwLockReadGuard<'a, T: ?Sized>(RwLockReadGuard<'a, T>);

/// `std::sync::RwLockWriteGuard`, carried through as an opaque value.
#[verifier::external_type_specification]
#[verifier::external_body]
#[verifier::reject_recursive_types(T)]
pub struct ExRwLockWriteGuard<'a, T: ?Sized + 'a>(RwLockWriteGuard<'a, T>);

/// `Mutex::new`: a mutex that holds `value`. Nothing is claimed of the
/// result: what it holds later is decided by whoever locks it.
#[verifier::external_body]
pub(crate) fn new_mutex<T>(value: T) -> Mutex<T> {
    Mutex::new(value)
}

/// `Mutex::lock`: waits for the mutex and returns its guard. A mutex that a
/// panicking holder left poisoned is taken over as it is, so the call has no
/// error to report. Nothing is claimed of the value behind the guard.
#[verifier::external_body]
pub(crate) fn lock<'a, T>(mutex: &'a Mutex<T>) -> MutexGuard<'a, T> {
    match mutex.lock() {
        Ok(guard) => guard,
        Err(poisoned) => poisoned.into_inner(),
    }
}

/// `DerefMut::deref_mut` of a `MutexGuard`: the value that the guard
/// protects. Nothing is claimed of it.
#[verifier::external_body]
pub(crate) fn guarded<'a, 'b, T>(guard: &'b mut MutexGuard<'a, T>) -> &'b mut T {
    &mut **guard
}

/// `RwLock::new`: a read/write lock that holds `value`. Nothing is claimed
/// of the result.
#[verifier::external_body]
pub(crate) fn new_rwlock<T>(value: T) -> RwLock<T> {
    RwLock::new(value)
}

/// `RwLock::read`: waits for shared access and returns its guard; a poisoned
/// lock is taken over as it is. Nothing is claimed of the value behind the
/// guard.
#[verifier::external_body]
pub(crate) fn read_lock<'a, T>(lock: &'a RwLock<T>) -> RwLockReadGuard<'a, T> {
    match lock.read() {
        Ok(guard) => guard,
        Err(poisoned) => poisoned.into_inner(),
    }
}

/// `Deref::deref` of a `RwLockReadGuard`: the value that the guard gives
/// shared access to. Nothing is claimed of it.
#[verifier::external_body]
pub(crate) fn read_guarded<'a, 'b, T>(guard: &'b RwLockReadGuard<'a, T>) -> &'b T {
    &**guard
}

/// `RwLock::write`: waits for exclusive access and returns its guard; a
/// poisoned lock is taken over as it is. Nothing is claimed of the value
/// behind the guard.
#[verifier::external_body]
pub(crate) fn write_lock<'a, T>(lock: &'a RwLock<T>) -> RwLockWriteGuard<'a, T> {
    match lock.write() {
        Ok(guard) => guard,
        Err(poisoned) => poisoned.into_inner(),
    }
}

/// `DerefMut::deref_mut` of a `RwLockWriteGuard`: the value that the guard
/// gives exclusive access to. Nothing is claimed of it.
#[verifier::external_body]
pub(crate) fn write_guarded<'a, 'b, T>(guard: &'b mut RwLockWriteGuard<'a, T>) -> &'b mut T {
    &mut **guard
}

} // verus!
