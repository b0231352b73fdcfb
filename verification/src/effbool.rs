use vstd::prelude::*;

verus! {

/// An edge-triggered boolean: a value together with a flag that records
/// whether the most recent [`EffBool::set`] actually changed the value.
///
/// Hook callbacks run once per frame; a widget hands them the same boolean
/// every frame, and the expensive work (toggling a patch, rebuilding a
/// resource) must run only on the frames where the value flips.
pub struct EffBool {
    actual_boolean: bool,
    is_changed: bool,
}

impl EffBool {
    /// The stored value.
    pub closed spec fn value(self) -> bool {
        self.actual_boolean
    }

    /// Whether the most recent `set` flipped the stored value.
    pub closed spec fn changed(self) -> bool {
        self.is_changed
    }

    pub fn new(b: bool) -> (r: EffBool)
        ensures
            r.value() == b,
            !r.changed(),
    {
        EffBool { actual_boolean: b, is_changed: false }
    }

    pub fn get(&self) -> (r: bool)
        ensures
            r == self.value(),
    {
        self.actual_boolean
    }

    /// Store `b`; the change flag is set exactly when `b` differs from the
    /// value stored before.
    pub fn set(&mut self, b: bool)
        ensures
            final(self).value() == b,
            final(self).changed() == (b != old(self).value()),
    {
        if b == self.actual_boolean {
            self.is_changed = false;
            return;
        }
        self.actual_boolean = b;
        self.is_changed = true;
    }

    /// Store `b` and report `(changed, value)` in one call.
    pub fn set_and_is_changed(&mut self, b: bool) -> (r: (bool, bool))
        ensures
            final(self).value() == b,
            final(self).changed() == (b != old(self).value()),
            r.0 == final(self).changed(),
            r.1 == final(self).value(),
    {
        self.set(b);
        (self.is_changed, self.actual_boolean)
    }

    pub fn is_changed(&self) -> (r: bool)
        ensures
            r == self.changed(),
    {
        self.is_changed
    }
}

impl Default for EffBool {
    /// The default value is `false` with no change recorded.
    fn default() -> (r: Self)
        ensures
            !r.value(),
            !r.changed(),
    {
        EffBool { actual_boolean: false, is_changed: false }
    }
}

} // verus!
