use vstd::prelude::*;

verus! {

/// A progress counter shown as a bar, in percent.
#[derive(Debug, Default, Clone, Copy, PartialEq, Eq, Structural)]
pub struct Experience(pub usize);

/// A view of an [`Experience`] counter that is refreshed only when the
/// counter changed since it was last shown.
#[derive(Debug, Default, Clone, Copy, PartialEq, Eq, Structural)]
pub struct ExperienceBar {
    pub shown: Option<usize>,
}

impl ExperienceBar {
    /// Brings the bar up to date with `experience`; returns the value to
    /// show when it differs from the one shown, and `None` when nothing is to
    /// be redrawn.
    pub fn sync(&mut self, experience: &Experience) -> (r: Option<usize>)
        ensures
            final(self).shown == Some(experience.0),
            r == (if old(self).shown == Some(experience.0) {
                None
            } else {
                Some(experience.0)
            }),
    {
        if self.shown == Some(experience.0) {
            None
        } else {
            self.shown = Some(experience.0);
            Some(experience.0)
        }
    }
}

} // verus!
