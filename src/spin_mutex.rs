//! A busy-wait mutual-exclusion lock that lives beside the value it protects.
//!
//! Acquiring the lock moves the value into a guard; releasing it moves the
//! value back. While a guard is out, every further acquisition attempt fails,
//! so the value is never reachable twice at once.

use vstd::prelude::*;

verus! {

/// A spin lock around a value of type `T`. Its model is the protected value,
/// or `None` while a guard holds it.
pub struct SpinMutex<T> {
    data: Option<T>,
}

/// Exclusive access to the value of a `SpinMutex`, from acquisition to release.
pub struct SpinGuard<T> {
    data: T,
}

impl<T> View for SpinMutex<T> {
    type V = Option<T>;

    closed spec fn view(&self) -> Option<T> {
        self.data
    }
}

impl<T> View for SpinGuard<T> {
    type V = T;

    closed spec fn view(&self) -> T {
        self.data
    }
}

impl<T> SpinMutex<T> {
    /// An unlocked mutex around `data`.
    pub fn new(data: T) -> (r: Self)
        ensures
            r@ == Some(data),
    {
        SpinMutex { data: Some(data) }
    }

    pub fn is_locked(&self) -> (r: bool)
        ensures
            r == self@ is None,
    {
        self.data.is_none()
    }

    /// One test-and-set: takes the lock and hands out its guard when the lock
    /// is free; fails and changes nothing while another guard is out.
    pub fn try_lock(&mut self) -> (r: Option<SpinGuard<T>>)
        ensures
            match old(self)@ {
                Some(v) => r matches Some(g) && g@ == v && final(self)@ is None,
                None => r is None && final(self)@ == old(self)@,
            },
    {
        match self.data.take() {
            Some(v) => Some(SpinGuard { data: v }),
            None => None,
        }
    }

    /// Takes the lock. A caller that already holds the guard would spin
    /// forever, the other holder being unable to run on the same core: the
    /// lock must be free, which is the caller's to ensure (for instance by
    /// keeping interrupts off while a guard is out).
    pub fn lock(&mut self) -> (r: SpinGuard<T>)
        requires
            old(self)@ is Some,
        ensures
            r@ == old(self)@->Some_0,
            final(self)@ is None,
    {
        let guard = self.try_lock();
        guard.unwrap()
    }

    /// Releases the lock, putting back the value the guard held.
    pub fn unlock(&mut self, guard: SpinGuard<T>)
        requires
            old(self)@ is None,
        ensures
            final(self)@ == Some(guard@),
    {
        self.data = Some(guard.data);
    }
}

impl<T> SpinGuard<T> {
    /// The protected value.
    pub fn get(&self) -> (r: &T)
        ensures
            *r == self@,
    {
        &self.data
    }

    /// The protected value, for writing.
    pub fn get_mut(&mut self) -> (r: &mut T)
        ensures
            *r == old(self)@,
            final(self)@ == *final(r),
    {
        &mut self.data
    }
}

} // verus!
