//! Change detection for component data fields.
//!
//! A [`ChangeDetector`] wraps one data field of a component. Reading the value
//! through a guard marks the field as read, changing it marks it as read and
//! written. The component uses the flags to learn which update functions depend
//! on which fields, and which fields changed since the last update.

use vstd::prelude::*;

verus! {

/// A value together with two flags: whether it was read and whether it was
/// written since the flags were last cleared.
#[derive(Debug)]
pub struct ChangeDetector<T> {
    value: T,
    read: bool,
    write: bool,
}

/// Read access to the value of a [`ChangeDetector`]: every access marks it read.
#[derive(Debug)]
pub struct ChangeDetectorRead<'a, T> {
    pub value: &'a T,
    pub read: &'a mut bool,
}

/// Write access to the value of a [`ChangeDetector`]: a shared access marks it
/// read, a mutable access marks it read and written.
#[derive(Debug)]
pub struct ChangeDetectorWrite<'a, T> {
    pub value: &'a mut T,
    pub read: &'a mut bool,
    pub write: &'a mut bool,
}

impl<T> ChangeDetector<T> {
    /// The wrapped value.
    pub closed spec fn value(&self) -> T {
        self.value
    }

    /// Whether the value was read since the flags were cleared.
    pub closed spec fn read_flag(&self) -> bool {
        self.read
    }

    /// Whether the value was written since the flags were cleared.
    pub closed spec fn write_flag(&self) -> bool {
        self.write
    }

    /// A write is always also a read.
    pub open spec fn wf(&self) -> bool {
        self.write_flag() ==> self.read_flag()
    }

    /// Wraps a value; nothing has been read or written yet.
    pub fn new(value: T) -> (r: Self)
        ensures
            r.value() == value,
            !r.read_flag(),
            !r.write_flag(),
            r.wf(),
    {
        ChangeDetector { value, read: false, write: false }
    }

    /// Whether the value was read since the flags were last cleared.
    pub fn was_read(&self) -> (b: bool)
        ensures
            b == self.read_flag(),
    {
        self.read
    }

    /// Whether the value was written since the flags were last cleared.
    pub fn was_written(&self) -> (b: bool)
        ensures
            b == self.write_flag(),
    {
        self.write
    }

    /// Resets both flags; the value is untouched.
    pub fn clear(&mut self)
        ensures
            final(self).value() == old(self).value(),
            !final(self).read_flag(),
            !final(self).write_flag(),
            final(self).wf(),
    {
        self.read = false;
        self.write = false;
    }

    /// Read access. The flags change only through the guard: when it is dropped
    /// the read flag is what the guard left it at, the write flag is unchanged.
    pub fn borrow(&mut self) -> (r: ChangeDetectorRead<'_, T>)
        ensures
            r.target() == old(self).value(),
            *r.read_ref() == old(self).read_flag(),
            final(self).value() == old(self).value(),
            final(self).write_flag() == old(self).write_flag(),
            final(self).read_flag() == *final(r.read_ref()),
    {
        ChangeDetectorRead { value: &self.value, read: &mut self.read }
    }

    /// Write access. When the guard is dropped the value and both flags are what
    /// the guard left them at.
    pub fn borrow_mut(&mut self) -> (r: ChangeDetectorWrite<'_, T>)
        ensures
            *r.value_ref() == old(self).value(),
            *r.read_ref() == old(self).read_flag(),
            *r.write_ref() == old(self).write_flag(),
            final(self).value() == *final(r.value_ref()),
            final(self).read_flag() == *final(r.read_ref()),
            final(self).write_flag() == *final(r.write_ref()),
    {
        ChangeDetectorWrite { value: &mut self.value, read: &mut self.read, write: &mut self.write }
    }
}

impl<'a, T> ChangeDetectorRead<'a, T> {
    /// The value behind the guard.
    pub open spec fn target(&self) -> T {
        *self.value
    }

    /// The read flag of the detector this guard came from.
    pub open spec fn read_ref(&self) -> &mut bool {
        self.read
    }

    /// Reads the value and marks it read.
    pub fn get(&mut self) -> (r: &T)
        ensures
            *r == old(self).target(),
            final(self).target() == old(self).target(),
            *final(self).read_ref(),
            *final(final(self).read_ref()) == *final(old(self).read_ref()),
    {
        *self.read = true;
        self.value
    }
}

impl<'a, T> ChangeDetectorWrite<'a, T> {
    /// The value behind the guard.
    pub open spec fn value_ref(&self) -> &mut T {
        self.value
    }

    /// The read flag of the detector this guard came from.
    pub open spec fn read_ref(&self) -> &mut bool {
        self.read
    }

    /// The write flag of the detector this guard came from.
    pub open spec fn write_ref(&self) -> &mut bool {
        self.write
    }

    /// Reads the value and marks it read; the write flag is unchanged.
    pub fn get(&mut self) -> (r: &T)
        ensures
            *r == *old(self).value_ref(),
            *final(self).value_ref() == *old(self).value_ref(),
            *final(self).read_ref(),
            *final(self).write_ref() == *old(self).write_ref(),
            *final(final(self).value_ref()) == *final(old(self).value_ref()),
            *final(final(self).read_ref()) == *final(old(self).read_ref()),
            *final(final(self).write_ref()) == *final(old(self).write_ref()),
    {
        *self.read = true;
        &*self.value
    }

    /// Mutable access to the value; marks it read and written. When the returned
    /// reference is done, the guard holds what was written through it.
    pub fn get_mut(&mut self) -> (r: &mut T)
        ensures
            *r == *old(self).value_ref(),
            *final(self).value_ref() == *final(r),
            *final(self).read_ref(),
            *final(self).write_ref(),
            *final(final(self).value_ref()) == *final(old(self).value_ref()),
            *final(final(self).read_ref()) == *final(old(self).read_ref()),
            *final(final(self).write_ref()) == *final(old(self).write_ref()),
    {
        *self.read = true;
        *self.write = true;
        &mut *self.value
    }
}

// ---------------------------------------------------------------------------
// The law: the flags follow the accesses
// ---------------------------------------------------------------------------

/// What one operation did to a detector: [`ChangeDetector::clear`], or a guard
/// from [`ChangeDetector::borrow`] or [`ChangeDetector::borrow_mut`] that was
/// dropped without access, used to read, or used to write.
pub enum Step {
    Clear,
    Untouched,
    Read,
    Write,
}

/// `after` is what `step` leaves of `before`, as the contracts of `clear`,
/// `borrow`, `borrow_mut`, `get` and `get_mut` state it.
pub open spec fn step_holds<T>(before: ChangeDetector<T>, step: Step, after: ChangeDetector<T>) -> bool {
    match step {
        Step::Clear => after.value() == before.value() && !after.read_flag() && !after.write_flag(),
        Step::Untouched => after.value() == before.value() && after.read_flag()
            == before.read_flag() && after.write_flag() == before.write_flag(),
        Step::Read => after.value() == before.value() && after.read_flag() && after.write_flag()
            == before.write_flag(),
        Step::Write => after.read_flag() && after.write_flag(),
    }
}

/// Some read or write happened after the last clear.
pub open spec fn accessed_since_clear(steps: Seq<Step>) -> bool
    decreases steps.len(),
{
    if steps.len() == 0 {
        false
    } else {
        match steps.last() {
            Step::Clear => false,
            Step::Untouched => accessed_since_clear(steps.drop_last()),
            Step::Read => true,
            Step::Write => true,
        }
    }
}

/// Some write happened after the last clear.
pub open spec fn written_since_clear(steps: Seq<Step>) -> bool
    decreases steps.len(),
{
    if steps.len() == 0 {
        false
    } else {
        match steps.last() {
            Step::Clear => false,
            Step::Write => true,
            _ => written_since_clear(steps.drop_last()),
        }
    }
}

/// From a new detector, through any sequence of operations: the value was read
/// exactly when some guard was read or written through since the detector was
/// made or last cleared, it was written exactly when some guard was written
/// through since then, and a written value is always also read.
pub proof fn lemma_flags_follow_steps<T>(states: Seq<ChangeDetector<T>>, steps: Seq<Step>)
    requires
        states.len() == steps.len() + 1,
        !states[0].read_flag(),
        !states[0].write_flag(),
        forall|i: int| 0 <= i < steps.len() ==> step_holds(states[i], #[trigger] steps[i], states[i + 1]),
    ensures
        states.last().read_flag() <==> accessed_since_clear(steps),
        states.last().write_flag() <==> written_since_clear(steps),
        states.last().wf(),
    decreases steps.len(),
{
    if steps.len() > 0 {
        let n = steps.len() - 1;
        let s2 = states.drop_last();
        assert forall|i: int| 0 <= i < steps.drop_last().len() implies step_holds(
            s2[i],
            #[trigger] steps.drop_last()[i],
            s2[i + 1],
        ) by {
            assert(step_holds(states[i], steps[i], states[i + 1]));
        }
        lemma_flags_follow_steps(s2, steps.drop_last());
        assert(step_holds(states[n], steps[n], states[n + 1]));
        assert(s2.last() == states[n]);
    }
}

} // verus!
