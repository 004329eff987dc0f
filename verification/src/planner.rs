//! From cut points to the segments that are extracted.

use crate::cut_points::{
    cut_points, law_orderly_cut_points_rise_to_the_end, near, strictly_increasing,
};
use crate::silence::{orderly, SilenceInterval, EPSILON};
use vstd::prelude::*;

verus! {

/// One slice of the timeline that becomes one output file. `ordinal` is the
/// one-based position, among all cut points of the run, of the cut that ends
/// the segment.
#[derive(Clone, Copy, Debug, PartialEq, Eq, Structural)]
pub struct Segment {
    pub start: u64,
    pub duration: u64,
    pub ordinal: usize,
}

impl Segment {
    /// The timestamp at which the segment is over.
    pub open spec fn end(self) -> int {
        self.start + self.duration
    }
}

/// Where the stretch that ends at cut `i` begins: at the cut before it, or at
/// zero for the first cut.
pub open spec fn running_start(cuts: Seq<u64>, i: int) -> u64 {
    if i <= 0 {
        0
    } else {
        cuts[i - 1]
    }
}

/// The length of the stretch that ends at cut `i`. It is negative where a cut
/// lies before its predecessor.
pub open spec fn stretch(cuts: Seq<u64>, i: int) -> int {
    cuts[i] - running_start(cuts, i)
}

/// A stretch becomes a segment when it is longer than `EPSILON`.
pub open spec fn is_kept(cuts: Seq<u64>, i: int) -> bool {
    stretch(cuts, i) > EPSILON
}

/// The segment that the stretch ending at cut `i` becomes, if it is kept.
pub open spec fn segment_at(cuts: Seq<u64>, i: int) -> Segment {
    Segment {
        start: running_start(cuts, i),
        duration: stretch(cuts, i) as u64,
        ordinal: (i + 1) as usize,
    }
}

/// The plan for a list of cut points: the kept stretches, in order.
pub open spec fn plan(cuts: Seq<u64>) -> Seq<Segment>
    decreases cuts.len(),
{
    if cuts.len() == 0 {
        Seq::empty()
    } else if is_kept(cuts, cuts.len() - 1) {
        plan(cuts.drop_last()).push(segment_at(cuts, cuts.len() - 1))
    } else {
        plan(cuts.drop_last())
    }
}

/// The sum of the durations of `segments`.
pub open spec fn total_duration(segments: Seq<Segment>) -> int
    decreases segments.len(),
{
    if segments.len() == 0 {
        0
    } else {
        total_duration(segments.drop_last()) + segments.last().duration
    }
}

/// The sum of the stretches that the plan drops.
pub open spec fn dropped_duration(cuts: Seq<u64>) -> int
    decreases cuts.len(),
{
    if cuts.len() == 0 {
        0
    } else if is_kept(cuts, cuts.len() - 1) {
        dropped_duration(cuts.drop_last())
    } else {
        dropped_duration(cuts.drop_last()) + stretch(cuts, cuts.len() - 1)
    }
}

/// Plans the segments of one file from its cut points. A stretch of at most
/// `EPSILON` yields no segment; the next segment still starts at the cut that
/// ended it.
pub fn plan_segments(cuts: &Vec<u64>) -> (segments: Vec<Segment>)
    ensures
        segments@ == plan(cuts@),
        segments@.len() <= cuts@.len(),
        forall|k: int|
            0 <= k < segments@.len() ==> (#[trigger] segments@[k]).duration > EPSILON && 1
                <= segments@[k].ordinal <= cuts@.len(),
{
    let mut segments: Vec<Segment> = Vec::new();
    let mut start: u64 = 0;
    let mut i: usize = 0;
    while i < cuts.len()
        invariant
            0 <= i <= cuts.len(),
            start == running_start(cuts@, i as int),
            segments@ == plan(cuts@.take(i as int)),
        decreases cuts.len() - i,
    {
        let cut: u64 = cuts[i];
        proof {
            let upto = cuts@.take(i + 1);
            assert(upto.drop_last() == cuts@.take(i as int));
            assert(upto[i as int] == cuts@[i as int]);
            assert(running_start(upto, i as int) == running_start(cuts@, i as int));
        }
        if cut > start && cut - start > EPSILON {
            segments.push(Segment { start, duration: cut - start, ordinal: i + 1 });
        }
        start = cut;
        i += 1;
    }
    proof {
        assert(cuts@.take(i as int) == cuts@);
        lemma_plan_describes_stretches(cuts@);
    }
    segments
}

/// Each planned segment is a kept stretch between two neighbouring cuts, and
/// the segments follow the order of the cuts.
pub proof fn lemma_plan_describes_stretches(cuts: Seq<u64>)
    requires
        cuts.len() <= usize::MAX,
    ensures
        plan(cuts).len() <= cuts.len(),
        forall|k: int|
            0 <= k < plan(cuts).len() ==> {
                let i = (#[trigger] plan(cuts)[k]).ordinal - 1;
                &&& 0 <= i < cuts.len()
                &&& is_kept(cuts, i)
                &&& plan(cuts)[k] == segment_at(cuts, i)
            },
        forall|j: int, k: int|
            0 <= j < k < plan(cuts).len() ==> (#[trigger] plan(cuts)[j]).ordinal < (
            #[trigger] plan(cuts)[k]).ordinal,
    decreases cuts.len(),
{
    if cuts.len() > 0 {
        let rest = cuts.drop_last();
        lemma_plan_describes_stretches(rest);
        assert forall|k: int| 0 <= k < plan(rest).len() implies {
            let i = (#[trigger] plan(rest)[k]).ordinal - 1;
            &&& is_kept(cuts, i)
            &&& plan(rest)[k] == segment_at(cuts, i)
        } by {
            let i = plan(rest)[k].ordinal - 1;
            assert(is_kept(rest, i));
            assert(rest[i] == cuts[i]);
            assert(running_start(rest, i) == running_start(cuts, i));
        }
        assert forall|j: int, k: int| 0 <= j < k < plan(cuts).len() implies (
        #[trigger] plan(cuts)[j]).ordinal < (#[trigger] plan(cuts)[k]).ordinal by {
            if k == plan(rest).len() {
                assert(plan(rest)[j].ordinal - 1 < rest.len());
            }
        }
    }
}

/// A plan has at most one segment for each cut.
pub proof fn lemma_plan_length(cuts: Seq<u64>)
    ensures
        plan(cuts).len() <= cuts.len(),
    decreases cuts.len(),
{
    if cuts.len() > 0 {
        lemma_plan_length(cuts.drop_last());
    }
}

/// Every kept stretch is in the plan.
pub proof fn law_plan_holds_every_kept_stretch(cuts: Seq<u64>, i: int)
    requires
        0 <= i < cuts.len(),
        is_kept(cuts, i),
    ensures
        plan(cuts).contains(segment_at(cuts, i)),
    decreases cuts.len(),
{
    let rest = cuts.drop_last();
    if i == cuts.len() - 1 {
        assert(plan(cuts).last() == segment_at(cuts, i));
    } else {
        assert(rest[i] == cuts[i]);
        assert(running_start(rest, i) == running_start(cuts, i));
        law_plan_holds_every_kept_stretch(rest, i);
        let k = choose|k: int| 0 <= k < plan(rest).len() && plan(rest)[k] == segment_at(rest, i);
        assert(plan(cuts)[k] == segment_at(cuts, i));
    }
}

/// Where the cut points rise, no two planned segments overlap: each segment
/// is over before the next begins.
pub proof fn law_segments_do_not_overlap(cuts: Seq<u64>)
    requires
        strictly_increasing(cuts),
        cuts.len() <= usize::MAX,
    ensures
        forall|j: int, k: int|
            0 <= j < k < plan(cuts).len() ==> (#[trigger] plan(cuts)[j]).end() <= (
            #[trigger] plan(cuts)[k]).start,
{
    lemma_plan_describes_stretches(cuts);
    assert forall|j: int, k: int| 0 <= j < k < plan(cuts).len() implies (
    #[trigger] plan(cuts)[j]).end() <= (#[trigger] plan(cuts)[k]).start by {
        let a = plan(cuts)[j].ordinal - 1;
        let b = plan(cuts)[k].ordinal - 1;
        assert(plan(cuts)[j] == segment_at(cuts, a));
        assert(plan(cuts)[k] == segment_at(cuts, b));
        assert(a < b);
        if a < b - 1 {
            assert(cuts[a] < cuts[b - 1]);
        }
    }
}

/// Where the cut points rise, the planned durations and the dropped stretches
/// together make up the timeline from zero to the last cut. Each dropped
/// stretch is at most `EPSILON` long.
pub proof fn law_plan_accounts_for_the_timeline(cuts: Seq<u64>)
    requires
        strictly_increasing(cuts),
        cuts.len() >= 1,
    ensures
        total_duration(plan(cuts)) + dropped_duration(cuts) == cuts.last(),
        0 <= dropped_duration(cuts) <= EPSILON * (cuts.len() - plan(cuts).len()),
    decreases cuts.len(),
{
    let rest = cuts.drop_last();
    let i = cuts.len() - 1;
    lemma_plan_length(rest);
    lemma_plan_length(cuts);
    if rest.len() >= 1 {
        assert(strictly_increasing(rest)) by {
            assert forall|a: int, b: int| 0 <= a < b < rest.len() implies rest[a] < rest[b] by {
                assert(cuts[a] < cuts[b]);
            }
        }
        law_plan_accounts_for_the_timeline(rest);
        assert(rest.last() == cuts[i - 1]);
        assert(cuts[i - 1] < cuts[i]);
    } else {
        assert(plan(rest) =~= Seq::<Segment>::empty());
        assert(total_duration(plan(rest)) == 0);
        assert(dropped_duration(rest) == 0);
    }
    assert(total_duration(plan(rest)) + dropped_duration(rest) + stretch(cuts, i) == cuts[i]);
    assert(0 <= stretch(cuts, i));
    let dropped_before = rest.len() - plan(rest).len();
    let dropped_now = cuts.len() - plan(cuts).len();
    if is_kept(cuts, i) {
        assert(plan(cuts).drop_last() == plan(rest));
        assert(plan(cuts).last().duration == stretch(cuts, i));
        assert(dropped_now == dropped_before);
    } else {
        assert(dropped_now == dropped_before + 1);
        assert(EPSILON * dropped_before + EPSILON == EPSILON * dropped_now) by (nonlinear_arith)
            requires
                dropped_now == dropped_before + 1,
        ;
    }
}

/// For rising cut points whose last one is near the end of the file, the
/// planned durations and the dropped stretches sum to the length of the file,
/// give or take `EPSILON`.
pub proof fn law_plan_covers_the_file(cuts: Seq<u64>, total: u64)
    requires
        strictly_increasing(cuts),
        cuts.len() >= 1,
        near(cuts.last(), total),
    ensures
        total - EPSILON <= total_duration(plan(cuts)) + dropped_duration(cuts) <= total + EPSILON,
{
    law_plan_accounts_for_the_timeline(cuts);
}

/// Where every stretch is kept, the segments tile the timeline: there is one
/// for each cut, the first starts at zero, each starts where the one before
/// it ends, and the last ends at the last cut.
pub proof fn law_unbroken_plan_tiles(cuts: Seq<u64>)
    requires
        forall|i: int| 0 <= i < cuts.len() ==> is_kept(cuts, i),
    ensures
        plan(cuts).len() == cuts.len(),
        forall|i: int| 0 <= i < cuts.len() ==> #[trigger] plan(cuts)[i] == segment_at(cuts, i),
        cuts.len() >= 1 ==> plan(cuts)[0].start == 0,
        forall|i: int| 1 <= i < cuts.len() ==> (#[trigger] plan(cuts)[i]).start == plan(cuts)[i - 1].end(),
        cuts.len() >= 1 ==> plan(cuts).last().end() == cuts.last(),
    decreases cuts.len(),
{
    if cuts.len() > 0 {
        let rest = cuts.drop_last();
        assert forall|i: int| 0 <= i < rest.len() implies is_kept(rest, i) by {
            assert(is_kept(cuts, i));
            assert(rest[i] == cuts[i]);
            assert(running_start(rest, i) == running_start(cuts, i));
        }
        law_unbroken_plan_tiles(rest);
        assert forall|i: int| 0 <= i < cuts.len() implies #[trigger] plan(cuts)[i] == segment_at(
            cuts,
            i,
        ) by {
            if i < rest.len() {
                assert(plan(rest)[i] == segment_at(rest, i));
                assert(rest[i] == cuts[i]);
                assert(running_start(rest, i) == running_start(cuts, i));
            }
        }
        assert forall|i: int| 1 <= i < cuts.len() implies (#[trigger] plan(cuts)[i]).start == plan(
            cuts,
        )[i - 1].end() by {
            assert(plan(cuts)[i] == segment_at(cuts, i));
            assert(plan(cuts)[i - 1] == segment_at(cuts, i - 1));
            assert(is_kept(cuts, i - 1));
        }
        assert(is_kept(cuts, cuts.len() - 1));
    }
}

/// From an orderly report to the plan: the segments do not overlap, and
/// together with the dropped stretches they make up the length of the file,
/// give or take `EPSILON`.
pub proof fn law_orderly_report_is_covered(
    silences: Seq<SilenceInterval>,
    min_silence: u64,
    total: u64,
)
    requires
        orderly(silences, total),
        silences.len() < usize::MAX,
    ensures
        ({
            let cuts = cut_points(silences, min_silence, total);
            &&& forall|j: int, k: int|
                0 <= j < k < plan(cuts).len() ==> (#[trigger] plan(cuts)[j]).end() <= (
                #[trigger] plan(cuts)[k]).start
            &&& total - EPSILON <= total_duration(plan(cuts)) + dropped_duration(cuts) <= total
        }),
{
    let cuts = cut_points(silences, min_silence, total);
    law_orderly_cut_points_rise_to_the_end(silences, min_silence, total);
    crate::cut_points::lemma_candidates_length(silences, min_silence);
    law_segments_do_not_overlap(cuts);
    law_plan_accounts_for_the_timeline(cuts);
}

} // verus!
