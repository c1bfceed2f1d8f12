use vstd::prelude::*;

verus! {

/// A fractional progress value `num / den`, handed to a progress sink before
/// each game of a simulation run and once more after the last game.
#[derive(Clone, Copy, Debug, PartialEq, Eq, Structural)]
pub struct Progress {
    pub num: i32,
    pub den: i32,
}

impl Progress {
    /// A report is well formed when it lies in `[0, 1]`.
    pub open spec fn wf(&self) -> bool {
        0 < self.den && 0 <= self.num <= self.den
    }

    /// The report that says the run is complete: exactly one.
    pub open spec fn is_complete(&self) -> bool {
        self.num == self.den
    }
}

/// The capability injected into the statistics collector for progress
/// reporting: one method that receives a fraction. The view `reports` is the
/// history of values received so far, oldest first.
pub trait ProgressSink {
    spec fn reports(&self) -> Seq<Progress>;

    fn report(&mut self, p: Progress)
        ensures
            final(self).reports() == old(self).reports().push(p),
    ;
}

/// A sink that records every report it receives, in order.
pub struct ProgressLog {
    entries: Vec<Progress>,
}

impl ProgressLog {
    pub fn new() -> (r: ProgressLog)
        ensures
            r.reports() == Seq::<Progress>::empty(),
    {
        ProgressLog { entries: Vec::new() }
    }

    pub fn len(&self) -> (r: usize)
        ensures
            r == self.reports().len(),
    {
        self.entries.len()
    }

    pub fn get(&self, i: usize) -> (r: Progress)
        requires
            i < self.reports().len(),
        ensures
            r == self.reports()[i as int],
    {
        self.entries[i]
    }
}

impl ProgressSink for ProgressLog {
    closed spec fn reports(&self) -> Seq<Progress> {
        self.entries@
    }

    fn report(&mut self, p: Progress) {
        self.entries.push(p);
    }
}

} // verus!
