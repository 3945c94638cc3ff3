//! A page's remotely produced view, with the wish for a fresh one.
use vstd::prelude::*;

verus! {

/// A view that is fetched or loaded, and whether a fresh load is wanted. A
/// page first marks it dirty, so that the loading view can be painted, then
/// starts the load once and stores the result when it lands.
pub struct Remote<T> {
    pub view: T,
    pub dirty: bool,
}

impl<T> Remote<T> {
    /// A page's first state. A page whose screen is already showing loads on
    /// the first pass.
    pub fn new(view: T, active: bool) -> (r: Self)
        ensures
            r.view == view,
            r.dirty == active,
    {
        Remote { view, dirty: active }
    }

    /// Asks for a load, showing `loading` until it lands.
    pub fn refresh(&mut self, loading: T)
        ensures
            final(self).view == loading,
            final(self).dirty,
    {
        self.view = loading;
        self.dirty = true;
    }

    /// Asks for a load, keeping the present view up.
    pub fn invalidate(&mut self)
        ensures
            final(self).view == old(self).view,
            final(self).dirty,
    {
        self.dirty = true;
    }

    /// Whether a load is wanted.
    pub fn is_dirty(&self) -> (r: bool)
        ensures
            r == self.dirty,
    {
        self.dirty
    }

    /// The load was started or served: stops asking for it.
    pub fn clear(&mut self)
        ensures
            final(self).view == old(self).view,
            !final(self).dirty,
    {
        self.dirty = false;
    }
}

} // verus!
