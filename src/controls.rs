//! Change tracking for the control surface's parameters.
use vstd::prelude::*;

verus! {

/// Which parameters changed since they were last sent to the audio side.
pub struct DirtyFlags {
    pub osc_type: bool,
    pub gain: bool,
    pub attack: bool,
    pub decay: bool,
    pub sustain: bool,
    pub release: bool,
}

impl DirtyFlags {
    /// No flag is set.
    pub open spec fn is_clear(&self) -> bool {
        !self.osc_type && !self.gain && !self.attack && !self.decay && !self.sustain
            && !self.release
    }

    /// Whether any parameter changed.
    pub fn any(&self) -> (r: bool)
        ensures
            r == !self.is_clear(),
    {
        self.osc_type || self.gain || self.attack || self.decay || self.sustain || self.release
    }

    /// Marks every parameter as sent.
    pub fn clear(&mut self)
        ensures
            final(self).is_clear(),
    {
        *self = DirtyFlags::default();
    }
}

impl Default for DirtyFlags {
    fn default() -> (r: DirtyFlags)
        ensures
            r.is_clear(),
    {
        DirtyFlags {
            osc_type: false,
            gain: false,
            attack: false,
            decay: false,
            sustain: false,
            release: false,
        }
    }
}

} // verus!
