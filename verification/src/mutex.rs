//! A mutual-exclusion primitive for callers who must share one driver
//! instance across contexts.
//!
//! Exclusion is modelled by ownership: locking takes the value out of the
//! mutex into a guard, and unlocking hands it back. A locked mutex holds no
//! value, so a second lock cannot be granted - the verified counterpart of
//! a busy-wait acquire. The primitive provides exclusion but no fairness.

use vstd::prelude::*;

verus! {

/// The mutex: a locked flag and the protected value, present exactly while
/// the mutex is unlocked.
pub struct Mutex<T> {
    /// Whether the mutex is held.
    pub locked: bool,
    /// The protected value, present while unlocked.
    pub data: Option<T>,
}

/// The guard returned by a successful lock: it owns the protected value
/// until it is handed back through `unlock`.
pub struct MutexGuard<T> {
    /// The protected value, exclusively held.
    pub data: T,
}

impl<T> Mutex<T> {
    /// The protected value is present exactly while the mutex is unlocked.
    pub open spec fn wf(self) -> bool {
        self.locked <==> self.data is None
    }

    /// Whether the mutex is currently held.
    pub open spec fn is_locked(self) -> bool {
        self.locked
    }

    /// The protected value of an unlocked mutex.
    pub open spec fn value(self) -> T {
        self.data->0
    }

    pub fn new(data: T) -> (r: Mutex<T>)
        ensures
            r.wf(),
            !r.is_locked(),
            r.value() == data,
    {
        Mutex { locked: false, data: Some(data) }
    }

    /// Acquires the mutex: marks it locked and moves the protected value
    /// into the returned guard. A lock on a held mutex would spin forever,
    /// so it is ruled out up front.
    pub fn lock(&mut self) -> (g: MutexGuard<T>)
        requires
            old(self).wf(),
            !old(self).is_locked(),
        ensures
            final(self).wf(),
            final(self).is_locked(),
            g.data == old(self).value(),
    {
        self.locked = true;
        let d: Option<T> = self.data.take();
        MutexGuard { data: d.unwrap() }
    }

    /// Releases the mutex: moves the guarded value back and clears the
    /// locked flag.
    pub fn unlock(&mut self, g: MutexGuard<T>)
        requires
            old(self).wf(),
            old(self).is_locked(),
        ensures
            final(self).wf(),
            !final(self).is_locked(),
            final(self).value() == g.data,
    {
        self.data = Some(g.data);
        self.locked = false;
    }
}

} // verus!
