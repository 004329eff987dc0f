//! One detected silence, and what makes a detector's report orderly.

use vstd::prelude::*;

verus! {

/// Segments and gaps of at most this many microseconds (a hundredth of a
/// second) count as measurement noise, not as content.
pub const EPSILON: u64 = 10_000;

/// A stretch of the timeline that the detector classified as silent. All
/// three fields are in microseconds, as the detector reported them.
#[derive(Clone, Copy, Debug, PartialEq, Eq, Structural)]
pub struct SilenceInterval {
    pub start: u64,
    pub end: u64,
    pub duration: u64,
}

impl SilenceInterval {
    /// The interval ends no earlier than it starts, and lasts for a while.
    pub open spec fn well_formed(self) -> bool {
        self.start <= self.end && self.duration > 0
    }

    /// The middle of the silence, where the timeline is cut: the start plus
    /// half the duration, rounded down to a whole microsecond.
    pub open spec fn midpoint(self) -> int {
        self.start + self.duration / 2
    }

    /// The midpoint as a timestamp. A midpoint beyond the largest timestamp is
    /// held at the largest.
    pub open spec fn cut_candidate(self) -> u64 {
        if self.midpoint() <= u64::MAX {
            self.midpoint() as u64
        } else {
            u64::MAX
        }
    }

    /// Where this silence would be cut.
    pub fn cut(&self) -> (at: u64)
        ensures
            at == self.cut_candidate(),
    {
        self.start.saturating_add(self.duration / 2)
    }
}

/// A report is orderly for a file of length `total` when every interval is
/// well-formed, each one is over before the next begins, and none reaches
/// past the end of the file.
pub open spec fn orderly(silences: Seq<SilenceInterval>, total: u64) -> bool {
    &&& forall|i: int| 0 <= i < silences.len() ==> (#[trigger] silences[i]).well_formed()
    &&& forall|i: int|
        0 <= i < silences.len() ==> (#[trigger] silences[i]).start + silences[i].duration <= total
    &&& forall|i: int, j: int|
        0 <= i < j < silences.len() ==> (#[trigger] silences[i]).start + silences[i].duration
            <= (#[trigger] silences[j]).start
}

} // verus!
