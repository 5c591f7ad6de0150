//! The rendering capabilities of values behind locks.
//!
//! A lock is tried, never waited for. Where it can be taken at once, the value
//! behind it is rendered; where it cannot, because it is poisoned or because
//! another holder has it, the rendering is `None`. So a rendering neither blocks
//! nor fails on account of a lock.
use vstd::prelude::*;
use std::sync::{Arc, Mutex, MutexGuard, RwLock, RwLockReadGuard};
use crate::containers::{fmt_debug_guarded, fmt_display_guarded};
use crate::runtime::{PyDebug, PyDisplay};

verus! {

/// A read-write lock of the standard library. What it holds can change behind a
/// shared reference, so nothing is known of it.
#[verifier::external_type_specification]
#[verifier::external_body]
#[verifier::reject_recursive_types(T)]
pub struct ExRwLock<T: ?Sized>(RwLock<T>);

/// A mutex of the standard library. What it holds can change behind a shared
/// reference, so nothing is known of it.
#[verifier::external_type_specification]
#[verifier::external_body]
#[verifier::reject_recursive_types(T)]
pub struct ExMutex<T: ?Sized>(Mutex<T>);

/// The guard of a read-write lock that is held for reading.
#[verifier::external_type_specification]
#[verifier::external_body]
#[verifier::reject_recursive_types(T)]
pub struct ExRwLockReadGuard<'a, T: ?Sized>(RwLockReadGuard<'a, T>);

/// The guard of a mutex that is held.
#[verifier::external_type_specification]
#[verifier::external_body]
#[verifier::reject_recursive_types(T)]
pub struct ExMutexGuard<'a, T: ?Sized + 'a>(MutexGuard<'a, T>);

/// `RwLock::try_read`: the guard if the lock could be taken for reading at once,
/// nothing if it is poisoned or held for writing. It does not block.
#[verifier::external_body]
fn try_read<'a, T>(lock: &'a RwLock<T>) -> Option<RwLockReadGuard<'a, T>> {
    match lock.try_read() {
        Ok(guard) => Some(guard),
        Err(_) => None,
    }
}

/// `Mutex::try_lock`: the guard if the mutex could be taken at once, nothing if it
/// is poisoned or held. It does not block.
#[verifier::external_body]
fn try_lock<'a, T>(lock: &'a Mutex<T>) -> Option<MutexGuard<'a, T>> {
    match lock.try_lock() {
        Ok(guard) => Some(guard),
        Err(_) => None,
    }
}

/// `Deref::deref` of a read guard: the value behind the lock, for as long as the
/// guard is borrowed.
#[verifier::external_body]
fn read_value<'a, 'b, T>(guard: &'b RwLockReadGuard<'a, T>) -> &'b T {
    std::ops::Deref::deref(guard)
}

/// `Deref::deref` of a mutex guard: the value behind the mutex, for as long as the
/// guard is borrowed.
#[verifier::external_body]
fn locked_value<'a, 'b, T>(guard: &'b MutexGuard<'a, T>) -> &'b T {
    std::ops::Deref::deref(guard)
}

/// Whether `text` is `None` or a rendering for debugging of some value.
pub open spec fn debugs_some_or_none<T: PyDebug>(text: Seq<char>) -> bool {
    text == "None"@ || exists|value: T| value.debugs(text)
}

/// Whether `text` is `None` or a rendering for display of some value.
pub open spec fn displays_some_or_none<T: PyDisplay>(text: Seq<char>) -> bool {
    text == "None"@ || exists|value: T| value.displays(text)
}

impl<T: PyDebug> PyDebug for RwLock<T> {
    open spec fn debugs(&self, text: Seq<char>) -> bool {
        debugs_some_or_none::<T>(text)
    }

    fn fmt_debug(&self) -> (text: String) {
        match try_read(self) {
            Some(guard) => fmt_debug_guarded(Some(read_value(&guard))),
            None => fmt_debug_guarded::<T>(None),
        }
    }
}

impl<T: PyDisplay> PyDisplay for RwLock<T> {
    open spec fn displays(&self, text: Seq<char>) -> bool {
        displays_some_or_none::<T>(text)
    }

    fn fmt_display(&self) -> (text: String) {
        match try_read(self) {
            Some(guard) => fmt_display_guarded(Some(read_value(&guard))),
            None => fmt_display_guarded::<T>(None),
        }
    }
}

impl<T: PyDebug> PyDebug for Mutex<T> {
    open spec fn debugs(&self, text: Seq<char>) -> bool {
        debugs_some_or_none::<T>(text)
    }

    fn fmt_debug(&self) -> (text: String) {
        match try_lock(self) {
            Some(guard) => fmt_debug_guarded(Some(locked_value(&guard))),
            None => fmt_debug_guarded::<T>(None),
        }
    }
}

impl<T: PyDisplay> PyDisplay for Mutex<T> {
    open spec fn displays(&self, text: Seq<char>) -> bool {
        displays_some_or_none::<T>(text)
    }

    fn fmt_display(&self) -> (text: String) {
        match try_lock(self) {
            Some(guard) => fmt_display_guarded(Some(locked_value(&guard))),
            None => fmt_display_guarded::<T>(None),
        }
    }
}

impl<T: PyDebug> PyDebug for Arc<RwLock<T>> {
    open spec fn debugs(&self, text: Seq<char>) -> bool {
        debugs_some_or_none::<T>(text)
    }

    fn fmt_debug(&self) -> (text: String) {
        let lock: &RwLock<T> = &**self;
        lock.fmt_debug()
    }
}

impl<T: PyDisplay> PyDisplay for Arc<RwLock<T>> {
    open spec fn displays(&self, text: Seq<char>) -> bool {
        displays_some_or_none::<T>(text)
    }

    fn fmt_display(&self) -> (text: String) {
        let lock: &RwLock<T> = &**self;
        lock.fmt_display()
    }
}

impl<T: PyDebug> PyDebug for Arc<Mutex<T>> {
    open spec fn debugs(&self, text: Seq<char>) -> bool {
        debugs_some_or_none::<T>(text)
    }

    fn fmt_debug(&self) -> (text: String) {
        let lock: &Mutex<T> = &**self;
        lock.fmt_debug()
    }
}

impl<T: PyDisplay> PyDisplay for Arc<Mutex<T>> {
    open spec fn displays(&self, text: Seq<char>) -> bool {
        displays_some_or_none::<T>(text)
    }

    fn fmt_display(&self) -> (text: String) {
        let lock: &Mutex<T> = &**self;
        lock.fmt_display()
    }
}

} // verus!
