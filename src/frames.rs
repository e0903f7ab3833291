use vstd::prelude::*;

verus! {

/// Which of the per-frame resource sets is in use; the sets are used in
/// turn.
pub struct FrameCycle {
    current: usize,
    count: usize,
}

impl FrameCycle {
    pub closed spec fn current_spec(&self) -> usize {
        self.current
    }

    pub closed spec fn count_spec(&self) -> usize {
        self.count
    }

    pub open spec fn wf(&self) -> bool {
        self.current_spec() < self.count_spec()
    }

    /// `count` sets, starting at the first.
    pub fn new(count: usize) -> (r: FrameCycle)
        requires
            count > 0,
        ensures
            r.wf(),
            r.current_spec() == 0,
            r.count_spec() == count,
    {
        FrameCycle { current: 0, count }
    }

    /// Index of the set in use.
    pub fn current_idx(&self) -> (r: usize)
        ensures
            r == self.current_spec(),
    {
        self.current
    }

    /// Moves on to the next set, wrapping after the last.
    pub fn cycle(&mut self)
        requires
            old(self).wf(),
        ensures
            final(self).wf(),
            final(self).count_spec() == old(self).count_spec(),
            final(self).current_spec() == (old(self).current_spec() + 1) % (old(self).count_spec() as int),
    {
        let ghost n = self.count as int;
        let ghost c = self.current as int;
        if self.current + 1 == self.count {
            assert((c + 1) % n == 0) by (nonlinear_arith)
                requires c + 1 == n, n > 0;
            self.current = 0;
        } else {
            assert((c + 1) % n == c + 1) by (nonlinear_arith)
                requires 0 <= c + 1 < n;
            self.current = self.current + 1;
        }
    }
}

} // verus!
