//! The locks and the condition variable of the standard library, as far as the
//! bundle relies on them.
//!
//! Nothing here is proved. A lock hands out whatever value was last stored in
//! it, by this thread or another, so none of these items says anything about
//! the value behind a guard. A poisoned lock is entered all the same: the
//! library never panics while it holds one.

use std::sync::atomic::{AtomicUsize, Ordering};
use std::sync::{
    Arc, Condvar, Mutex, MutexGuard, PoisonError, RwLock, RwLockReadGuard, RwLockWriteGuard,
};
use vstd::prelude::*;

verus! {

/// `std::sync::Mutex`. Opaque.
#[verifier::external_type_specification]
#[verifier::external_body]
#[verifier::reject_recursive_types(T)]
pub struct ExMutex<T: ?Sized>(Mutex<T>);

/// `std::sync::MutexGuard`. Opaque.
#[verifier::external_type_specification]
#[verifier::external_body]
#[verifier::reject_recursive_types(T)]
pub struct ExMutexGuard<'a, T: ?Sized + 'a>(MutexGuard<'a, T>);

/// `std::sync::RwLock`. Opaque.
#[verifier::external_type_specification]
#[verifier::external_body]
#[verifier::reject_recursive_types(T)]
pub struct ExRwLock<T: ?Sized>(RwLock<T>);

/// `std::sync::RwLockReadGuard`. Opaque.
#[verifier::external_type_specification]
#[verifier::external_body]
#[verifier::reject_recursive_types(T)]
pub struct ExRwLockReadGuard<'a, T: ?Sized>(RwLockReadGuard<'a, T>);

/// `std::sync::RwLockWriteGuard`. Opaque.
#[verifier::external_type_specification]
#[verifier::external_body]
#[verifier::reject_recursive_types(T)]
pub struct ExRwLockWriteGuard<'a, T: ?Sized + 'a>(RwLockWriteGuard<'a, T>);

/// `std::sync::Condvar`. Opaque.
#[verifier::external_type_specification]
#[verifier::external_body]
pub struct ExCondvar(Condvar);

/// `Mutex::new`.
pub assume_specification<T>[ Mutex::<T>::new ](value: T) -> (mutex: Mutex<T>);

/// `RwLock::new`.
pub assume_specification<T>[ RwLock::<T>::new ](value: T) -> (rwlock: RwLock<T>);

/// `Condvar::new`.
pub assume_specification[ Condvar::new ]() -> (condvar: Condvar);

/// `Arc::clone`: another pointer to the same value.
#[verifier::external_body]
pub(crate) fn share<T>(pointer: &Arc<T>) -> (twin: Arc<T>)
    ensures
        twin == *pointer,
{
    Arc::clone(pointer)
}

/// `Mutex::lock`: blocks until the mutex is free. It does not unwind here,
/// since the poisoned case is taken as a guard too.
#[verifier::external_body]
pub(crate) fn lock<'a, T>(mutex: &'a Mutex<T>) -> (guard: MutexGuard<'a, T>)
    opens_invariants none
    no_unwind
{
    mutex.lock().unwrap_or_else(PoisonError::into_inner)
}

/// `MutexGuard::deref_mut`: the value that the mutex protects, to be read or
/// changed.
#[verifier::external_body]
pub(crate) fn held_mut<'a, 'b, T>(guard: &'a mut MutexGuard<'b, T>) -> (value: &'a mut T)
    opens_invariants none
    no_unwind
{
    &mut **guard
}

/// `RwLock::read`: blocks until no writer holds the lock.
#[verifier::external_body]
pub(crate) fn read_lock<'a, T>(lock: &'a RwLock<T>) -> (guard: RwLockReadGuard<'a, T>) {
    lock.read().unwrap_or_else(PoisonError::into_inner)
}

/// `RwLock::write`: blocks until nobody else holds the lock.
#[verifier::external_body]
pub(crate) fn write_lock<'a, T>(lock: &'a RwLock<T>) -> (guard: RwLockWriteGuard<'a, T>) {
    lock.write().unwrap_or_else(PoisonError::into_inner)
}

/// `RwLockReadGuard::deref`: the value that the lock protects.
#[verifier::external_body]
pub(crate) fn shared<'a, 'b, T>(guard: &'a RwLockReadGuard<'b, T>) -> (value: &'a T) {
    &**guard
}

/// `RwLockWriteGuard::deref_mut`: the value that the lock protects, to be changed.
#[verifier::external_body]
pub(crate) fn exclusive<'a, 'b, T>(guard: &'a mut RwLockWriteGuard<'b, T>) -> (value: &'a mut T) {
    &mut **guard
}

/// `Condvar::notify_one`: wakes one thread that waits on the condition variable,
/// if there is one. It never unwinds.
#[verifier::external_body]
pub(crate) fn notify_one(condvar: &Condvar)
    opens_invariants none
    no_unwind
{
    condvar.notify_one();
}

/// `Condvar::notify_all`: wakes every thread that waits on the condition
/// variable. It never unwinds.
#[verifier::external_body]
pub(crate) fn notify_all(condvar: &Condvar)
    opens_invariants none
    no_unwind
{
    condvar.notify_all();
}

/// `AtomicUsize::fetch_sub` of 1 with relaxed ordering: the count before the
/// step. The subtraction wraps, so it never unwinds; other handles change the
/// count at any time, so nothing is claimed of the number.
#[verifier::external_body]
pub(crate) fn count_down(count: &AtomicUsize) -> (before: usize)
    opens_invariants none
    no_unwind
{
    count.fetch_sub(1, Ordering::Relaxed)
}

} // verus!
