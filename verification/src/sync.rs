//! Guards of the shared allocator state. There is one execution context, so
//! a lock only has to keep an interrupt handler from entering what it
//! interrupted: taking it remembers whether interrupts were enabled, and
//! releasing it says whether they are to be enabled again.

use vstd::prelude::*;

verus! {

/// A value that may only be used while interrupts are disabled.
pub struct IRQLocked<T> {
    locked: bool,
    val: T,
}

/// Proof of a taken `IRQLocked`; remembers whether interrupts were enabled
/// when it was taken.
pub struct InterruptGuard {
    int_flag: bool,
}

impl InterruptGuard {
    /// Whether interrupts were enabled when the lock was taken.
    pub closed spec fn was_enabled(&self) -> bool {
        self.int_flag
    }

    /// A guard that remembers `int_flag`.
    pub fn new(int_flag: bool) -> (g: InterruptGuard)
        ensures
            g.was_enabled() == int_flag,
    {
        InterruptGuard { int_flag }
    }
}

impl<T> IRQLocked<T> {
    /// Whether the lock is taken.
    pub closed spec fn locked(&self) -> bool {
        self.locked
    }

    /// The value guarded.
    pub closed spec fn value(&self) -> T {
        self.val
    }

    /// A free lock around `val`.
    pub fn new(val: T) -> (l: IRQLocked<T>)
        ensures
            !l.locked(),
            l.value() == val,
    {
        IRQLocked { locked: false, val }
    }

    /// Whether the lock is taken.
    pub fn is_locked(&self) -> (r: bool)
        ensures
            r == self.locked(),
    {
        self.locked
    }

    /// Takes the lock. `interrupts_enabled` says whether interrupts are
    /// enabled now; the caller disables them once it holds the guard. `None`
    /// where the lock is taken already: the same context is about to enter
    /// twice.
    pub fn lock(&mut self, interrupts_enabled: bool) -> (g: Option<InterruptGuard>)
        ensures
            final(self).value() == old(self).value(),
            final(self).locked(),
            match g {
                Some(guard) => !old(self).locked() && guard.was_enabled() == interrupts_enabled,
                None => old(self).locked(),
            },
    {
        if self.locked {
            None
        } else {
            self.locked = true;
            Some(InterruptGuard::new(interrupts_enabled))
        }
    }

    /// Releases the lock and says whether interrupts are to be enabled: only
    /// if they were when the lock was taken.
    pub fn unlock(&mut self, guard: InterruptGuard) -> (enable: bool)
        requires
            old(self).locked(),
        ensures
            !final(self).locked(),
            final(self).value() == old(self).value(),
            enable == guard.was_enabled(),
    {
        self.locked = false;
        guard.int_flag
    }

    /// The value guarded.
    pub fn get(&self) -> (v: &T)
        requires
            self.locked(),
        ensures
            *v == self.value(),
    {
        &self.val
    }

    /// Puts `val` in place of the value guarded and returns the old one.
    pub fn replace(&mut self, val: T) -> (previous: T)
        requires
            old(self).locked(),
        ensures
            previous == old(self).value(),
            final(self).value() == val,
            final(self).locked(),
    {
        let mut val = val;
        std::mem::swap(&mut self.val, &mut val);
        val
    }
}

/// A test-and-set lock.
pub struct Spinlock<T> {
    lock: bool,
    data: T,
}

/// Proof of a taken `Spinlock`.
pub struct SpinlockGuard {
    held: bool,
}

impl<T> Spinlock<T> {
    /// Whether the lock is taken.
    pub closed spec fn locked(&self) -> bool {
        self.lock
    }

    /// The value guarded.
    pub closed spec fn value(&self) -> T {
        self.data
    }

    /// A free lock around `data`.
    pub fn new(data: T) -> (l: Spinlock<T>)
        ensures
            !l.locked(),
            l.value() == data,
    {
        Spinlock { lock: false, data }
    }

    /// Takes the lock. `None` where it is taken already: with one execution
    /// context, waiting for it would never end.
    pub fn lock(&mut self) -> (g: Option<SpinlockGuard>)
        ensures
            final(self).value() == old(self).value(),
            final(self).locked(),
            g is Some == !old(self).locked(),
    {
        if self.lock {
            None
        } else {
            self.lock = true;
            Some(SpinlockGuard { held: true })
        }
    }

    /// Releases the lock.
    pub fn release(&mut self, guard: SpinlockGuard)
        requires
            old(self).locked(),
        ensures
            !final(self).locked(),
            final(self).value() == old(self).value(),
    {
        self.lock = false;
    }

    /// The value guarded.
    pub fn get(&self) -> (v: &T)
        requires
            self.locked(),
        ensures
            *v == self.value(),
    {
        &self.data
    }
}

/// A value that is set once, after its owner was made.
pub struct LateInit<T> {
    data: Option<T>,
}

impl<T> LateInit<T> {
    /// The value, once set.
    pub closed spec fn value(&self) -> Option<T> {
        self.data
    }

    /// A `LateInit` without a value.
    pub fn new() -> (l: LateInit<T>)
        ensures
            l.value() is None,
    {
        LateInit { data: None }
    }

    /// Sets the value and returns `true`, or returns `false` and changes
    /// nothing where a value was set before.
    pub fn init(&mut self, data: T) -> (fresh: bool)
        ensures
            fresh == (old(self).value() is None),
            final(self).value() == (if fresh {
                Some(data)
            } else {
                old(self).value()
            }),
    {
        if self.data.is_some() {
            false
        } else {
            self.data = Some(data);
            true
        }
    }

    /// Whether the value is set.
    pub fn is_init(&self) -> (r: bool)
        ensures
            r == (self.value() is Some),
    {
        self.data.is_some()
    }

    /// The value.
    pub fn get(&self) -> (v: &T)
        requires
            self.value() is Some,
        ensures
            Some(*v) == self.value(),
    {
        self.data.as_ref().unwrap()
    }
}

/// A value that the whole kernel shares.
pub struct Global<T>(pub T);

impl<T> Global<T> {
    /// A shared `val`.
    pub fn new(val: T) -> (g: Global<T>)
        ensures
            g.0 == val,
    {
        Global(val)
    }

    /// The value shared.
    pub fn get(&self) -> (v: &T)
        ensures
            *v == self.0,
    {
        &self.0
    }
}

} // verus!
