//! The level manifest: the ordered list of levels a play-through walks
//! through, and the cursor into it. Reading manifest and level files is the
//! loader collaborator's work; the progression logic lives here.

use vstd::prelude::*;

verus! {

/// One entry of the manifest: a display name and where the level's data
/// lives, for the loader collaborator to read.
#[derive(Clone, Debug, Default)]
pub struct LevelInfo {
    pub name: String,
    pub path: String,
}

impl LevelInfo {
    pub fn new(name: String, path: String) -> (r: Self)
        ensures
            r.name@ == name@,
            r.path@ == path@,
    {
        Self { name, path }
    }
}

/// The manifest and the current position in it.
#[derive(Debug, Default)]
pub struct Levels {
    pub data: Vec<LevelInfo>,
    pub start_at: usize,
}

impl Levels {
    /// A play-through still has a level to offer.
    pub fn has_current(&self) -> (r: bool)
        ensures
            r == (self.start_at < self.data@.len()),
    {
        self.start_at < self.data.len()
    }

    /// The entry the cursor stands on.
    pub fn current(&self) -> (r: Option<&LevelInfo>)
        ensures
            self.start_at < self.data@.len() ==> r == Some(&self.data@[self.start_at as int]),
            self.start_at >= self.data@.len() ==> r is None,
    {
        if self.start_at < self.data.len() {
            Some(&self.data[self.start_at])
        } else {
            None
        }
    }

    /// Move to the next level, as on a goal being reached. The cursor may
    /// step past the last entry: that is the play-through's end, which
    /// `has_current` then reports.
    pub fn advance(&mut self)
        requires
            old(self).start_at < usize::MAX,
        ensures
            final(self).start_at == old(self).start_at + 1,
            final(self).data@ == old(self).data@,
    {
        self.start_at = self.start_at + 1;
    }
}

} // verus!
