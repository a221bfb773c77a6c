//! Estimate and track the memory data structures take: a tracked running
//! total, a wrapper tying an object to the tracker, and a closed-form
//! estimate of index bookkeeping so usage queries stay constant-time.

use vstd::prelude::*;

verus! {

/// The saturating sum of two byte counts.
pub open spec fn usage_plus(a: usize, b: usize) -> usize {
    if a + b <= usize::MAX {
        (a + b) as usize
    } else {
        usize::MAX
    }
}

/// The saturating difference of two byte counts.
pub open spec fn usage_minus(a: usize, b: usize) -> usize {
    if a >= b {
        (a - b) as usize
    } else {
        0
    }
}

/// Data types capable of reporting the memory owned behind their own
/// footprint (through boxes and vectors).
pub trait MemoryUsage {
    /// The bytes the value owns indirectly.
    spec fn usage_spec(&self) -> usize;

    fn indirect_memory_usage(&self) -> (r: usize)
        ensures
            r == self.usage_spec(),
    ;
}

impl MemoryUsage for u8 {
    open spec fn usage_spec(&self) -> usize {
        0
    }

    fn indirect_memory_usage(&self) -> (r: usize) {
        0
    }
}

/// Types whose default value owns no indirect memory.
pub trait ZeroUsageDefault: MemoryUsage {

}

impl ZeroUsageDefault for u8 {

}

/// The running total of tracked memory.
pub struct Tracker {
    current_usage: usize,
}

impl Tracker {
    pub closed spec fn usage_spec(&self) -> usize {
        self.current_usage
    }

    pub fn new() -> (r: Self)
        ensures
            r.usage_spec() == 0,
    {
        Tracker { current_usage: 0 }
    }

    pub fn get_usage(&self) -> (r: usize)
        ensures
            r == self.usage_spec(),
    {
        self.current_usage
    }

    /// Record `amount` more bytes, saturating at the type's top.
    pub fn add(&mut self, amount: usize)
        ensures
            final(self).usage_spec() == usage_plus(old(self).usage_spec(), amount),
    {
        self.current_usage = match self.current_usage.checked_add(amount) {
            Some(t) => t,
            None => usize::MAX,
        };
    }

    /// Record `amount` fewer bytes, saturating at zero.
    pub fn sub(&mut self, amount: usize)
        ensures
            final(self).usage_spec() == usage_minus(old(self).usage_spec(), amount),
    {
        self.current_usage = if self.current_usage >= amount {
            self.current_usage - amount
        } else {
            0
        };
    }
}

/// What to do when a tracked object is let go without being released.
pub trait DropPolicy {
    fn on_release(&mut self);
}

/// The policy that does nothing.
pub struct NoopDropPolicy;

impl DropPolicy for NoopDropPolicy {
    fn on_release(&mut self) {
    }
}

/// The policy that records the release, so teardown checks can see it.
pub struct AssertDropPolicy {
    pub released: bool,
}

impl AssertDropPolicy {
    pub fn new() -> (r: Self)
        ensures
            r.released == false,
    {
        AssertDropPolicy { released: false }
    }
}

impl DropPolicy for AssertDropPolicy {
    fn on_release(&mut self)
        ensures
            final(self).released,
    {
        self.released = true;
    }
}

/// An object whose indirect memory is accounted to a tracker.
pub struct TrackedObject<T, D> {
    obj: T,
    drop_policy: D,
}

impl<T: MemoryUsage, D: DropPolicy> TrackedObject<T, D> {
    /// The wrapped object.
    pub closed spec fn object(&self) -> T {
        self.obj
    }

    /// Start tracking an object: the total grows by the object's
    /// indirect usage.
    pub fn new(tracker: &mut Tracker, obj: T, drop_policy: D) -> (r: Self)
        ensures
            final(tracker).usage_spec() == usage_plus(old(tracker).usage_spec(), obj.usage_spec()),
            r.object() == obj,
    {
        let amount = obj.indirect_memory_usage();
        tracker.add(amount);
        TrackedObject { obj, drop_policy }
    }

    /// Stop tracking and hand the object back: the total shrinks by the
    /// object's indirect usage, so a release right after tracking leaves
    /// the total where it started (up to saturation).
    pub fn release(this: Self, tracker: &mut Tracker) -> (r: T)
        ensures
            r == this.object(),
            final(tracker).usage_spec() == usage_minus(
                old(tracker).usage_spec(),
                this.object().usage_spec(),
            ),
    {
        let amount = this.obj.indirect_memory_usage();
        tracker.sub(amount);
        TrackedObject::forget(this)
    }

    /// Hand the object back without touching any tracker, for teardown
    /// when the tracker itself goes away.
    pub fn forget(this: Self) -> (r: T)
        ensures
            r == this.object(),
    {
        let TrackedObject { obj, mut drop_policy } = this;
        drop_policy.on_release();
        obj
    }

    /// Open a re-accounting window before mutating the object: the guard
    /// remembers the usage going in, and settling it moves the tracker
    /// by the difference.
    pub fn get_mut(&self) -> (r: Guard)
        ensures
            r.orig_usage == self.object().usage_spec(),
    {
        let orig = self.obj.indirect_memory_usage();
        Guard { orig_usage: orig }
    }

    /// Put a new object in the place of the held one, settling the
    /// tracker by the usage difference, and hand the old object back.
    pub fn replace(&mut self, tracker: &mut Tracker, new_obj: T) -> (r: T)
        ensures
            r == old(self).object(),
            final(self).object() == new_obj,
            final(tracker).usage_spec() == usage_plus(
                usage_minus(old(tracker).usage_spec(), old(self).object().usage_spec()),
                new_obj.usage_spec(),
            ),
    {
        let old_amount = self.obj.indirect_memory_usage();
        tracker.sub(old_amount);
        let new_amount = new_obj.indirect_memory_usage();
        tracker.add(new_amount);
        let mut obj = new_obj;
        core::mem::swap(&mut self.obj, &mut obj);
        obj
    }

    pub fn inner(&self) -> (r: &T)
        ensures
            *r == self.object(),
    {
        &self.obj
    }
}

/// The record of an object's usage before a mutation; the holder settles
/// the difference with the tracker when the mutation is done.
pub struct Guard {
    pub orig_usage: usize,
}

impl Guard {
    /// Settle the tracked total after a mutation: the usage going in
    /// leaves the total and the new usage enters it.
    pub fn finish(self, tracker: &mut Tracker, new_usage: usize)
        ensures
            final(tracker).usage_spec() == usage_plus(
                usage_minus(old(tracker).usage_spec(), self.orig_usage),
                new_usage,
            ),
    {
        tracker.sub(self.orig_usage);
        tracker.add(new_usage);
    }
}

/// The bytes an id-keyed balanced index takes for the given element
/// count, by a closed-form estimate: eleven elements per node, an extra
/// tenth for inner levels, and a third for slack, over 72-byte elements
/// and 112-byte node headers.
pub fn usage(num_elems: usize) -> (r: usize)
    requires
        num_elems < 1000000000,
    ensures
        ({
            let t = 4 * ((72 * (num_elems as int)) / 11 + (112 * (num_elems as int) * 11) / 1320)
                / 3;
            if t <= usize::MAX {
                r == t
            } else {
                r == usize::MAX
            }
        }),
{
    let n = num_elems as u64;
    let leaves = (72 * n) / 11;
    let internals = (112 * n * 11) / (132 * 10);
    let total = 4 * (leaves + internals) / 3;
    if total > usize::MAX as u64 {
        usize::MAX
    } else {
        total as usize
    }
}

} // verus!
