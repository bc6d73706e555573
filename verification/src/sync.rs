//! The locks of std, as far as the tracker uses them. Verus sees nothing of
//! what a lock holds: whatever is read through a guard is an arbitrary value.

use vstd::prelude::*;
use std::sync::{LockResult, Mutex, MutexGuard, PoisonError, TryLockError, TryLockResult};

verus! {

/// `std::sync::Mutex`, carried as an opaque value.
#[verifier::external_type_specification]
#[verifier::external_body]
#[verifier::reject_recursive_types(T)]
pub struct ExMutex<T: ?Sized>(Mutex<T>);

/// `std::sync::MutexGuard`, carried as an opaque value.
#[verifier::external_type_specification]
#[verifier::external_body]
#[verifier::reject_recursive_types(T)]
pub struct ExMutexGuard<'a, T: ?Sized + 'a>(MutexGuard<'a, T>);

/// `std::sync::PoisonError`, carried as an opaque value.
#[verifier::external_type_specification]
#[verifier::external_body]
#[verifier::reject_recursive_types(T)]
pub struct ExPoisonError<T>(PoisonError<T>);

/// `std::sync::TryLockError`, carried as an opaque value.
#[verifier::external_type_specification]
#[verifier::external_body]
#[verifier::reject_recursive_types(T)]
pub struct ExTryLockError<T>(TryLockError<T>);

/// `Mutex::new` makes a lock around `t`. Nothing is claimed of the lock.
pub assume_specification<T>[ Mutex::<T>::new ](t: T) -> (lock: Mutex<T>);

/// `Mutex::lock` waits for the lock and returns its guard, inside `Err` when
/// an earlier holder faulted. Nothing is claimed of what the lock holds.
/// std leaves open what happens when the calling thread holds the lock
/// already; no function of this library makes such a call.
pub assume_specification<'a, T: ?Sized>[ Mutex::<T>::lock ](lock: &'a Mutex<T>) -> (guard:
    LockResult<MutexGuard<'a, T>>);

/// `Mutex::try_lock` returns the guard if the lock is free, and an error if it
/// is held or an earlier holder faulted. Nothing is claimed of which.
pub assume_specification<'a, T: ?Sized>[ Mutex::<T>::try_lock ](lock: &'a Mutex<T>) -> (guard:
    TryLockResult<MutexGuard<'a, T>>);

/// `PoisonError::into_inner` hands out the guard that the error carries.
pub assume_specification<T>[ PoisonError::<T>::into_inner ](poisoned: PoisonError<T>) -> (guard: T);

/// The value behind a guard, through `DerefMut::deref_mut`. Nothing is claimed
/// of the value found there.
#[verifier::external_body]
pub(crate) fn held<'a, 'b, T>(guard: &'a mut MutexGuard<'b, T>) -> (value: &'a mut T) {
    &mut **guard
}

/// The value behind a guard, through `Deref::deref`. Nothing is claimed of the
/// value found there.
#[verifier::external_body]
pub(crate) fn peek<'a, 'b, T>(guard: &'a MutexGuard<'b, T>) -> (value: &'a T) {
    &**guard
}

} // verus!
