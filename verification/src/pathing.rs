//! What a task that walks along a remembered path keeps track of.

use vstd::prelude::*;

verus! {

/// Counts the moves in a row that went wrong.
pub trait Stuckable {
    spec fn stuck_count(&self) -> u32;

    spec fn stuck(&self) -> bool;

    /// Whether too many moves in a row went wrong.
    fn is_stuck(&self) -> (r: bool)
        ensures
            r == self.stuck(),
    ;

    /// How many moves in a row went wrong.
    fn get_stuck_count(&self) -> (r: u32)
        ensures
            r == self.stuck_count(),
    ;

    /// Sets how many moves in a row went wrong.
    fn set_stuck_count(&mut self, count: u32)
        ensures
            final(self).stuck_count() == count,
    ;
}

/// Remembers a path in the form the game moves an agent along.
pub trait MovesAlongCachedPath: Stuckable {
    spec fn cached_path(&self) -> Option<String>;

    /// The path that is remembered.
    fn get_cached_path(&self) -> (r: Option<&String>)
        ensures
            r == match self.cached_path() {
                Some(p) => Some(&p),
                None => None,
            },
    ;

    /// Remembers `path`, or forgets the path with `None`.
    fn set_cached_path(&mut self, path: Option<String>)
        ensures
            final(self).cached_path() == path,
            final(self).stuck_count() == old(self).stuck_count(),
    ;

    /// Forgets the path.
    fn empty_cached_path(&mut self)
        ensures
            final(self).cached_path() is None,
            final(self).stuck_count() == old(self).stuck_count(),
    ;
}

} // verus!
