//! Shared-state handles for the double-buffer protocol: a clonable
//! exclusive-access cell and a clonable many-reader/one-writer cell, both
//! built on vstd's verified reader-writer lock.
//!
//! Handles obtained by cloning refer to the same shared state; the locks
//! accept any value of the stored type.

use vstd::prelude::*;
use vstd::rwlock::{ReadHandle, RwLock, WriteHandle};
use std::sync::Arc;

verus! {

/// Relies on `std::sync::Arc::clone`: the clone is a handle to the very
/// same shared allocation, so its value equals the original's.
#[verifier::external_body]
fn arc_clone<T>(arc: &Arc<T>) -> (r: Arc<T>)
    ensures
        r == *arc,
{
    Arc::clone(arc)
}

/// Exclusive handle to a value stored behind a shared lock, obtained from
/// [`MyArcMut::grab_lock`] or [`MyArcRwLock::grab_writer_lock`]. The lock
/// stays held until [`Self::release`] stores a value back.
#[verifier::reject_recursive_types(T)]
pub struct MyWriteGuard<'a, T> {
    handle: WriteHandle<'a, T, spec_fn(T) -> bool>,
}

impl<'a, T> MyWriteGuard<'a, T> {
    /// The guarded lock accepts every value of `T`.
    pub closed spec fn wf(self) -> bool {
        forall|v: T| self.handle.rwlock().inv(v)
    }

    /// Stores `value` into the shared slot and releases the lock.
    pub fn release(self, value: T)
        requires
            self.wf(),
    {
        self.handle.release_write(value);
    }
}

/// Shared read handle obtained from [`MyArcRwLock::grab_reader_lock`].
/// The lock stays held until [`Self::release`].
#[verifier::reject_recursive_types(T)]
pub struct MyReadGuard<'a, T> {
    handle: ReadHandle<'a, T, spec_fn(T) -> bool>,
}

impl<'a, T> MyReadGuard<'a, T> {
    /// The value this read handle observes.
    pub closed spec fn value(self) -> T {
        self.handle.view()
    }

    /// Borrows the shared value for reading.
    pub fn borrow<'b>(&'b self) -> (v: &'b T)
        ensures
            *v == self.value(),
    {
        self.handle.borrow()
    }

    /// Releases the read lock.
    pub fn release(self) {
        self.handle.release_read();
    }
}

/// A clonable handle to a mutably shared value: every clone addresses the
/// same slot, and access always goes through the lock.
#[verifier::reject_recursive_types(T)]
pub struct MyArcMut<T> {
    inner: Arc<RwLock<T, spec_fn(T) -> bool>>,
}

impl<T> MyArcMut<T> {
    /// The shared lock accepts every value of `T`.
    pub closed spec fn wf(self) -> bool {
        forall|v: T| (*self.inner).inv(v)
    }

    /// Puts `value` into a fresh shared slot.
    pub fn new(value: T) -> (s: Self)
        ensures
            s.wf(),
    {
        let lock = RwLock::new(value, Ghost(|v: T| true));
        MyArcMut { inner: Arc::new(lock) }
    }

    /// Takes the stored value out under the lock; use this only if
    /// [`Self::set`] and [`Self::get`] are too limiting. The guard must be
    /// released with a value to store back.
    pub fn grab_lock<'a>(&'a self) -> (r: (T, MyWriteGuard<'a, T>))
        requires
            self.wf(),
        ensures
            r.1.wf(),
    {
        let (value, handle) = (*self.inner).acquire_write();
        (value, MyWriteGuard { handle })
    }
}

impl<T: Clone> MyArcMut<T> {
    /// Replaces the shared value.
    pub fn set(&mut self, value: T)
        requires
            old(self).wf(),
        ensures
            *final(self) == *old(self),
            final(self).wf(),
    {
        let (_old_value, handle) = (*self.inner).acquire_write();
        handle.release_write(value);
    }

    /// Clones the shared value out.
    pub fn get(&self) -> T
        requires
            self.wf(),
    {
        let read_handle = (*self.inner).acquire_read();
        let value = read_handle.borrow().clone();
        read_handle.release_read();
        value
    }
}

impl<T> Clone for MyArcMut<T> {
    /// The clone shares the same slot as the original.
    fn clone(&self) -> (r: Self)
        ensures
            r == *self,
    {
        MyArcMut { inner: arc_clone(&self.inner) }
    }
}

/// A clonable handle to a value shared between many readers and one
/// writer: every clone addresses the same slot.
#[verifier::reject_recursive_types(T)]
pub struct MyArcRwLock<T> {
    inner: Arc<RwLock<T, spec_fn(T) -> bool>>,
}

impl<T> MyArcRwLock<T> {
    /// The shared lock accepts every value of `T`.
    pub closed spec fn wf(self) -> bool {
        forall|v: T| (*self.inner).inv(v)
    }

    /// Puts `value` into a fresh shared slot.
    pub fn new(value: T) -> (s: Self)
        ensures
            s.wf(),
    {
        let lock = RwLock::new(value, Ghost(|v: T| true));
        MyArcRwLock { inner: Arc::new(lock) }
    }

    /// Takes the stored value out under the exclusive lock; the guard must
    /// be released with a value to store back.
    pub fn grab_writer_lock<'a>(&'a self) -> (r: (T, MyWriteGuard<'a, T>))
        requires
            self.wf(),
        ensures
            r.1.wf(),
    {
        let (value, handle) = (*self.inner).acquire_write();
        (value, MyWriteGuard { handle })
    }

    /// Acquires shared read access; many readers may hold it at once.
    pub fn grab_reader_lock<'a>(&'a self) -> (r: MyReadGuard<'a, T>) {
        let handle = (*self.inner).acquire_read();
        MyReadGuard { handle }
    }
}

impl<T> Clone for MyArcRwLock<T> {
    /// The clone shares the same slot as the original.
    fn clone(&self) -> (r: Self)
        ensures
            r == *self,
    {
        MyArcRwLock { inner: arc_clone(&self.inner) }
    }
}

} // verus!
