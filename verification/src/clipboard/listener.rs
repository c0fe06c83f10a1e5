//! The write-back skip marker: while the application itself writes a record back to the
//! clipboard, the clipboard listener must not capture that write as a new record.
use vstd::prelude::*;

verus! {

/// Set before a write-back; the next capture sees it, skips, and clears it.
pub struct SkipMarker {
    enabled: bool,
}

impl SkipMarker {
    /// Whether the next capture is to be skipped.
    pub closed spec fn is_set(&self) -> bool {
        self.enabled
    }

    /// A marker that is not set.
    pub fn new() -> (r: Self)
        ensures
            !r.is_set(),
    {
        Self { enabled: false }
    }

    /// Whether to skip this capture; consumes the marker.
    pub fn should_skip(&mut self) -> (r: bool)
        ensures
            r == old(self).is_set(),
            !final(self).is_set(),
    {
        let r = self.enabled;
        self.enabled = false;
        r
    }

    /// Sets the marker (before a write-back).
    pub fn set(&mut self)
        ensures
            final(self).is_set(),
    {
        self.enabled = true;
    }

    /// Clears the marker.
    pub fn clear(&mut self)
        ensures
            !final(self).is_set(),
    {
        self.enabled = false;
    }

    /// After a write-back: when it changed the clipboard, the marker stays set so that the
    /// change notification that follows is skipped (by `should_skip`, which consumes it);
    /// when it changed nothing, no notification follows and the marker is cleared.
    pub fn after_write_back(&mut self, clipboard_changed: bool)
        ensures
            final(self).is_set() == (old(self).is_set() && clipboard_changed),
    {
        if !clipboard_changed {
            self.enabled = false;
        }
    }
}

} // verus!
