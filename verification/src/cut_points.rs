//! From a detector's report to the timestamps at which a file is cut.

use crate::silence::{orderly, SilenceInterval, EPSILON};
use vstd::prelude::*;

verus! {

/// The midpoints of the silences that last at least `min_silence`, in the
/// order of the report.
pub open spec fn candidate_cuts(silences: Seq<SilenceInterval>, min_silence: u64) -> Seq<u64>
    decreases silences.len(),
{
    if silences.len() == 0 {
        Seq::empty()
    } else if silences.last().duration >= min_silence {
        candidate_cuts(silences.drop_last(), min_silence).push(silences.last().cut_candidate())
    } else {
        candidate_cuts(silences.drop_last(), min_silence)
    }
}

/// Whether the end of the file has to be added after the candidates: there
/// is no candidate, or the last one lies more than `EPSILON` before the end.
pub open spec fn needs_final_cut(candidates: Seq<u64>, total: u64) -> bool {
    candidates.len() == 0 || candidates.last() + EPSILON < total
}

/// The candidates, closed by `total` itself where they do not already reach
/// it.
pub open spec fn closed_at(candidates: Seq<u64>, total: u64) -> Seq<u64> {
    if needs_final_cut(candidates, total) {
        candidates.push(total)
    } else {
        candidates
    }
}

/// The cut points of a file of length `total`: one in the middle of every
/// silence that lasts at least `min_silence`, and the end of the file.
pub open spec fn cut_points(silences: Seq<SilenceInterval>, min_silence: u64, total: u64) -> Seq<
    u64,
> {
    closed_at(candidate_cuts(silences, min_silence), total)
}

/// Each element is smaller than the one after it.
pub open spec fn strictly_increasing(points: Seq<u64>) -> bool {
    forall|i: int, j: int| 0 <= i < j < points.len() ==> points[i] < points[j]
}

/// `point` lies no further than `EPSILON` from `total`, on either side.
pub open spec fn near(point: u64, total: u64) -> bool {
    point <= total + EPSILON && total <= point + EPSILON
}

/// Computes the cut points of one file from the detector's report.
pub fn compute_cut_points(silences: &Vec<SilenceInterval>, min_silence: u64, total: u64) -> (cuts:
    Vec<u64>)
    ensures
        cuts@ == cut_points(silences@, min_silence, total),
        cuts@.len() >= 1,
{
    let mut cuts: Vec<u64> = Vec::new();
    let mut i: usize = 0;
    while i < silences.len()
        invariant
            0 <= i <= silences.len(),
            cuts@ == candidate_cuts(silences@.take(i as int), min_silence),
        decreases silences.len() - i,
    {
        proof {
            assert(silences@.take(i + 1).drop_last() == silences@.take(i as int));
        }
        if silences[i].duration >= min_silence {
            cuts.push(silences[i].cut());
        }
        i += 1;
    }
    proof {
        assert(silences@.take(i as int) == silences@);
    }
    let reaches_end = match cuts.last() {
        Some(last) => total <= EPSILON || *last >= total - EPSILON,
        None => false,
    };
    if !reaches_end {
        cuts.push(total);
    }
    cuts
}

/// There is at most one candidate for each silence.
pub proof fn lemma_candidates_length(silences: Seq<SilenceInterval>, min_silence: u64)
    ensures
        candidate_cuts(silences, min_silence).len() <= silences.len(),
    decreases silences.len(),
{
    if silences.len() > 0 {
        lemma_candidates_length(silences.drop_last(), min_silence);
    }
}

/// Closing a rising list of candidates keeps it rising, and leaves its last
/// element near the end of the file, provided that no candidate lies more
/// than `EPSILON` beyond that end.
pub proof fn lemma_closing_keeps_order(candidates: Seq<u64>, total: u64)
    requires
        strictly_increasing(candidates),
        candidates.len() > 0 ==> candidates.last() <= total + EPSILON,
    ensures
        closed_at(candidates, total).len() >= 1,
        strictly_increasing(closed_at(candidates, total)),
        near(closed_at(candidates, total).last(), total),
{
    if needs_final_cut(candidates, total) {
        let closed = candidates.push(total);
        assert forall|i: int, j: int| 0 <= i < j < closed.len() implies closed[i] < closed[j] by {
            if j == candidates.len() {
                assert(candidates[i] <= candidates.last());
            }
        }
    }
}

/// In an orderly report the candidates rise strictly, and each lies before
/// the end of the last silence, hence within the file.
pub proof fn lemma_orderly_candidates(silences: Seq<SilenceInterval>, min_silence: u64, total: u64)
    requires
        orderly(silences, total),
    ensures
        strictly_increasing(candidate_cuts(silences, min_silence)),
        forall|k: int|
            0 <= k < candidate_cuts(silences, min_silence).len() ==> #[trigger] candidate_cuts(
                silences,
                min_silence,
            )[k] < silences.last().start + silences.last().duration,
        forall|k: int|
            0 <= k < candidate_cuts(silences, min_silence).len() ==> #[trigger] candidate_cuts(
                silences,
                min_silence,
            )[k] < total,
    decreases silences.len(),
{
    if silences.len() > 0 {
        let rest = silences.drop_last();
        let last = silences.last();
        assert(orderly(rest, total)) by {
            assert forall|i: int| 0 <= i < rest.len() implies (#[trigger] rest[i]).well_formed()
                && rest[i].start + rest[i].duration <= total by {
                assert(rest[i] == silences[i]);
            }
            assert forall|i: int, j: int| 0 <= i < j < rest.len() implies (#[trigger] rest[i]).start
                + rest[i].duration <= (#[trigger] rest[j]).start by {
                assert(rest[i] == silences[i]);
                assert(rest[j] == silences[j]);
            }
        }
        lemma_orderly_candidates(rest, min_silence, total);
        let before = candidate_cuts(rest, min_silence);
        assert(last == silences[silences.len() - 1]);
        assert(last.well_formed());
        assert(last.start + last.duration <= total);
        if rest.len() > 0 {
            assert(rest.last() == silences[silences.len() - 2]);
            assert(rest.last().start + rest.last().duration <= last.start);
        }
        assert forall|k: int| 0 <= k < before.len() implies #[trigger] before[k] < last.start by {
            assert(before.len() > 0 ==> rest.len() > 0);
        }
        if last.duration >= min_silence {
            let all = before.push(last.cut_candidate());
            assert(last.cut_candidate() == last.start + last.duration / 2);
            assert forall|i: int, j: int| 0 <= i < j < all.len() implies all[i] < all[j] by {
                if j < before.len() {
                    assert(before[i] < before[j]);
                } else {
                    assert(before[i] < last.start);
                }
            }
        }
    }
}

/// Where the candidates rise strictly and none lies more than `EPSILON`
/// beyond the end of the file, the cut points rise strictly and the last one
/// is within `EPSILON` of that end. On any other report the cut points do
/// not both rise and end there.
pub proof fn law_cut_points_rise_to_the_end(
    silences: Seq<SilenceInterval>,
    min_silence: u64,
    total: u64,
)
    requires
        strictly_increasing(candidate_cuts(silences, min_silence)),
        candidate_cuts(silences, min_silence).len() > 0 ==> candidate_cuts(
            silences,
            min_silence,
        ).last() <= total + EPSILON,
    ensures
        cut_points(silences, min_silence, total).len() >= 1,
        strictly_increasing(cut_points(silences, min_silence, total)),
        near(cut_points(silences, min_silence, total).last(), total),
{
    lemma_closing_keeps_order(candidate_cuts(silences, min_silence), total);
}

/// The cut points of an orderly report rise strictly, none lies beyond the
/// end of the file, and the last one is within `EPSILON` of that end.
pub proof fn law_orderly_cut_points_rise_to_the_end(
    silences: Seq<SilenceInterval>,
    min_silence: u64,
    total: u64,
)
    requires
        orderly(silences, total),
    ensures
        cut_points(silences, min_silence, total).len() >= 1,
        strictly_increasing(cut_points(silences, min_silence, total)),
        near(cut_points(silences, min_silence, total).last(), total),
        forall|k: int|
            0 <= k < cut_points(silences, min_silence, total).len() ==> #[trigger] cut_points(
                silences,
                min_silence,
                total,
            )[k] <= total,
{
    lemma_orderly_candidates(silences, min_silence, total);
    law_cut_points_rise_to_the_end(silences, min_silence, total);
}

/// Where the cut points rise strictly and the last one is within `EPSILON`
/// of the end of the file, the candidates rose strictly and none lay more
/// than `EPSILON` beyond that end.
pub proof fn law_rising_cut_points_need_rising_candidates(
    silences: Seq<SilenceInterval>,
    min_silence: u64,
    total: u64,
)
    requires
        strictly_increasing(cut_points(silences, min_silence, total)),
        near(cut_points(silences, min_silence, total).last(), total),
    ensures
        strictly_increasing(candidate_cuts(silences, min_silence)),
        candidate_cuts(silences, min_silence).len() > 0 ==> candidate_cuts(
            silences,
            min_silence,
        ).last() <= total + EPSILON,
{
    let candidates = candidate_cuts(silences, min_silence);
    let cuts = cut_points(silences, min_silence, total);
    assert forall|i: int, j: int| 0 <= i < j < candidates.len() implies candidates[i]
        < candidates[j] by {
        assert(cuts[i] == candidates[i]);
        assert(cuts[j] == candidates[j]);
    }
    if candidates.len() > 0 && needs_final_cut(candidates, total) {
        assert(cuts[candidates.len() - 1] == candidates.last());
    }
}

/// The cut points depend on the report, the minimum and the length of the
/// file, and on nothing else: equal inputs give equal cut points.
pub proof fn law_cut_points_are_repeatable(
    first: Seq<SilenceInterval>,
    second: Seq<SilenceInterval>,
    min_silence: u64,
    total: u64,
)
    requires
        first =~= second,
    ensures
        cut_points(first, min_silence, total) == cut_points(second, min_silence, total),
{
}

} // verus!
