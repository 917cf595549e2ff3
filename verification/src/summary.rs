use vstd::prelude::*;

verus! {

/// Size statistics for one strategy: how many measurements were recorded
/// and their total size in bytes.
///
/// `total` is wide enough that recording any number of `usize` sizes that
/// a `count` of observations can produce never overflows; `wf` is the
/// bound that makes this so.
#[derive(Debug, Clone, Copy)]
pub struct Summary {
    pub count: usize,
    pub total: u128,
}

impl Summary {
    /// The total never exceeds what `count` observations of at most
    /// `u64::MAX` bytes each can add up to.  Every `usize` size fits in a
    /// `u64`, so `record` preserves this and can never overflow `total`.
    pub open spec fn wf(self) -> bool {
        self.total <= self.count * (u64::MAX as int)
    }

    /// A fresh summary with nothing recorded.
    pub fn new() -> (r: Summary)
        ensures
            r.count == 0,
            r.total == 0,
            r.wf(),
    {
        Summary { count: 0, total: 0 }
    }

    /// Append one observation of `size` bytes: the count rises by one and
    /// the total by `size`.
    pub fn record(&mut self, size: usize)
        requires
            old(self).wf(),
            old(self).count < usize::MAX,
        ensures
            final(self).count == old(self).count + 1,
            final(self).total == old(self).total + size,
            final(self).wf(),
    {
        proof {
            let m = u64::MAX as int;
            let c = self.count as int;
            let t = self.total as int;
            let x = size as int;
            assert(t + x <= (c + 1) * m) by (nonlinear_arith)
                requires
                    t <= c * m,
                    x <= m,
                    m > 0,
                    c >= 0,
            ;
            assert((c + 1) * m <= 0x1_0000_0000_0000_0000 * m) by (nonlinear_arith)
                requires
                    c + 1 <= 0x1_0000_0000_0000_0000,
                    m >= 0,
            ;
        }
        self.count = self.count + 1;
        self.total = self.total + (size as u128);
    }
}

} // verus!
