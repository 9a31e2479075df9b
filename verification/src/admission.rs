use vstd::prelude::*;

verus! {

/// The admission decision, by itself: a fresh connection is taken only
/// while the in-flight count has not reached the configured maximum.
pub fn should_admit(current: usize, max_conns: usize) -> (r: bool)
    ensures
        r == (current != max_conns),
{
    current != max_conns
}

/// The in-flight connection count the accept loop keeps, bounded by the
/// configured maximum.
#[derive(Debug, Clone, Copy, PartialEq, Eq, Structural)]
pub struct ConnectionCounter {
    pub count: usize,
}

impl ConnectionCounter {
    pub open spec fn wf(&self, max_conns: usize) -> bool {
        self.count <= max_conns
    }

    pub fn new() -> (r: Self)
        ensures
            r.count == 0,
    {
        ConnectionCounter { count: 0 }
    }

    /// Admits a connection unless the count stands at the maximum: a
    /// connection arriving at the cap is dropped, and the drop leaves
    /// the count untouched.
    pub fn try_admit(&mut self, max_conns: usize) -> (r: bool)
        requires
            old(self).wf(max_conns),
        ensures
            old(self).count == max_conns ==> !r && final(self).count == old(self).count,
            old(self).count != max_conns ==> r && final(self).count == old(self).count + 1,
            final(self).wf(max_conns),
    {
        if should_admit(self.count, max_conns) {
            self.count = self.count + 1;
            true
        } else {
            false
        }
    }

    /// A handled connection gives its slot back.
    pub fn release(&mut self)
        requires
            old(self).count > 0,
        ensures
            final(self).count == old(self).count - 1,
    {
        self.count = self.count - 1;
    }
}

} // verus!
