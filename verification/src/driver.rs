//! The course of one file through detection, the decision to analyse again,
//! and splitting.
//!
//! The driver decides; its caller acts. Each step takes what happened last
//! and returns the state that follows together with what is to be done next.

use crate::cut_points::{compute_cut_points, cut_points};
use crate::parameters::Parameters;
use crate::planner::{plan, plan_segments, Segment};
use crate::silence::SilenceInterval;
use vstd::prelude::*;

verus! {

/// Why a file was given up.
#[derive(Clone, Copy, Debug, PartialEq, Eq, Structural)]
pub enum Failure {
    /// Detection failed and the caller chose not to try again, or it
    /// reported a file without length.
    Detection,
    /// The extraction of the segment with this ordinal failed.
    Extraction { ordinal: usize },
    /// No output index could be allocated.
    Allocation,
    /// No output index is left for the next segment.
    IndexExhausted,
}

/// What the caller is to do next.
#[derive(Clone, Copy, Debug, PartialEq, Eq, Structural)]
pub enum Action {
    /// Ask for the parameters.
    RequestParameters,
    /// The parameters were refused; ask again.
    RejectParameters,
    /// Run the detector with these parameters.
    Detect { parameters: Parameters },
    /// Show how many segments the file would be cut into, and ask whether to
    /// analyse again or to go on.
    Decide { segment_count: usize },
    /// List the output directory and allocate the first free output index.
    Allocate,
    /// Extract this segment into the file with this output index.
    Extract { segment: Segment, index: usize },
    /// Every segment is extracted; report their number.
    Finish { count: usize },
    /// Report the failure; nothing more is done for this file.
    Abort { failure: Failure },
    /// What happened has no meaning in this state; nothing changes.
    Ignore,
}

/// What happened last.
#[derive(Debug)]
pub enum Event {
    /// The caller supplied parameters.
    Parameters { parameters: Parameters },
    /// The detector reported these silences in a file of this length.
    Detected { silences: Vec<SilenceInterval>, total: u64 },
    /// The detector failed; `retry` tells whether to try with new parameters.
    DetectionFailed { retry: bool },
    /// The caller wants another analysis.
    Reanalyze,
    /// The caller wants the file split.
    Proceed,
    /// The first free output index is this.
    Allocated { first_index: usize },
    /// No output index could be allocated.
    AllocationFailed,
    /// The segment asked for was extracted.
    Extracted,
    /// The segment asked for could not be extracted.
    ExtractionFailed,
}

/// Where the driver stands.
#[derive(Debug)]
pub enum State {
    /// The caller has yet to supply parameters.
    AwaitingParameters,
    /// The detector is running with these parameters.
    Detecting { parameters: Parameters },
    /// The cut points are known; the caller decides whether to analyse again
    /// or to split.
    ReanalysisDecision { parameters: Parameters, cut_points: Vec<u64> },
    /// While nothing is allocated, the first output index is awaited. Then
    /// `segments[position]` is being extracted, into the file whose index is
    /// the allocated one plus `position`.
    Splitting { segments: Vec<Segment>, position: usize, allocated: Option<usize> },
    /// All `segments` are extracted, into the files from `first_index` on.
    Done { segments: Vec<Segment>, first_index: usize },
    /// The file was given up.
    Failed { failure: Failure },
}

/// The contents of an event.
pub enum EventModel {
    Parameters { parameters: Parameters },
    Detected { silences: Seq<SilenceInterval>, total: u64 },
    DetectionFailed { retry: bool },
    Reanalyze,
    Proceed,
    Allocated { first_index: usize },
    AllocationFailed,
    Extracted,
    ExtractionFailed,
}

/// The contents of a state.
pub enum StateModel {
    AwaitingParameters,
    Detecting { parameters: Parameters },
    ReanalysisDecision { parameters: Parameters, cut_points: Seq<u64> },
    Splitting { segments: Seq<Segment>, position: usize, allocated: Option<usize> },
    Done { segments: Seq<Segment>, first_index: usize },
    Failed { failure: Failure },
}

impl View for Event {
    type V = EventModel;

    open spec fn view(&self) -> EventModel {
        match *self {
            Event::Parameters { parameters } => EventModel::Parameters { parameters },
            Event::Detected { silences, total } => EventModel::Detected {
                silences: silences@,
                total,
            },
            Event::DetectionFailed { retry } => EventModel::DetectionFailed { retry },
            Event::Reanalyze => EventModel::Reanalyze,
            Event::Proceed => EventModel::Proceed,
            Event::Allocated { first_index } => EventModel::Allocated { first_index },
            Event::AllocationFailed => EventModel::AllocationFailed,
            Event::Extracted => EventModel::Extracted,
            Event::ExtractionFailed => EventModel::ExtractionFailed,
        }
    }
}

impl View for State {
    type V = StateModel;

    open spec fn view(&self) -> StateModel {
        match *self {
            State::AwaitingParameters => StateModel::AwaitingParameters,
            State::Detecting { parameters } => StateModel::Detecting { parameters },
            State::ReanalysisDecision { parameters, cut_points } => StateModel::ReanalysisDecision {
                parameters,
                cut_points: cut_points@,
            },
            State::Splitting { segments, position, allocated } => StateModel::Splitting {
                segments: segments@,
                position,
                allocated,
            },
            State::Done { segments, first_index } => StateModel::Done {
                segments: segments@,
                first_index,
            },
            State::Failed { failure } => StateModel::Failed { failure },
        }
    }
}

/// What follows the supply of parameters: detection, where they are
/// acceptable.
pub open spec fn after_parameters(parameters: Parameters) -> (StateModel, Action) {
    if parameters.acceptable() {
        (StateModel::Detecting { parameters }, Action::Detect { parameters })
    } else {
        (StateModel::AwaitingParameters, Action::RejectParameters)
    }
}

/// What follows a detection: the cut points are computed, and the caller
/// decides with the number of segments before them. A file without length
/// cannot be split: a detection that reports one has failed.
pub open spec fn after_detection(
    parameters: Parameters,
    silences: Seq<SilenceInterval>,
    total: u64,
) -> (StateModel, Action) {
    if total > 0 {
        let cuts = cut_points(silences, parameters.min_silence, total);
        (
            StateModel::ReanalysisDecision { parameters, cut_points: cuts },
            Action::Decide { segment_count: plan(cuts).len() as usize },
        )
    } else {
        (
            StateModel::Failed { failure: Failure::Detection },
            Action::Abort { failure: Failure::Detection },
        )
    }
}

/// What follows the decision to split: the segments are planned, and the
/// caller allocates the first output index.
pub open spec fn after_proceeding(cuts: Seq<u64>) -> (StateModel, Action) {
    (
        StateModel::Splitting { segments: plan(cuts), position: 0, allocated: None },
        Action::Allocate,
    )
}

/// What follows the allocation: the first planned segment goes to the first
/// free index. A plan without segments is done at once.
pub open spec fn after_allocation(segments: Seq<Segment>, first_index: usize) -> (
    StateModel,
    Action,
) {
    if segments.len() == 0 {
        (StateModel::Done { segments, first_index }, Action::Finish { count: 0 })
    } else {
        (
            StateModel::Splitting { segments, position: 0, allocated: Some(first_index) },
            Action::Extract { segment: segments[0], index: first_index },
        )
    }
}

/// What follows a successful extraction: the next segment goes to the next
/// index, and after the last segment the file is done.
pub open spec fn after_extraction(segments: Seq<Segment>, position: usize, first_index: usize) -> (
    StateModel,
    Action,
) {
    if position + 1 < segments.len() {
        if first_index + position + 1 <= usize::MAX {
            (
                StateModel::Splitting {
                    segments,
                    position: (position + 1) as usize,
                    allocated: Some(first_index),
                },
                Action::Extract {
                    segment: segments[position + 1],
                    index: (first_index + position + 1) as usize,
                },
            )
        } else {
            (
                StateModel::Failed { failure: Failure::IndexExhausted },
                Action::Abort { failure: Failure::IndexExhausted },
            )
        }
    } else {
        (
            StateModel::Done { segments, first_index },
            Action::Finish { count: segments.len() as usize },
        )
    }
}

/// What follows a failed extraction: the remaining segments are given up.
pub open spec fn after_failed_extraction(segments: Seq<Segment>, position: usize) -> (
    StateModel,
    Action,
) {
    let failure = Failure::Extraction {
        ordinal: if position < segments.len() {
            segments[position as int].ordinal
        } else {
            0
        },
    };
    (StateModel::Failed { failure }, Action::Abort { failure })
}

/// The state and the action that follow `state` when `event` has happened.
/// An event that has no meaning in a state leaves it as it is.
pub open spec fn transition(state: StateModel, event: EventModel) -> (StateModel, Action) {
    match state {
        StateModel::AwaitingParameters => match event {
            EventModel::Parameters { parameters } => after_parameters(parameters),
            _ => (state, Action::Ignore),
        },
        StateModel::Detecting { parameters } => match event {
            EventModel::Detected { silences, total } => after_detection(
                parameters,
                silences,
                total,
            ),
            EventModel::DetectionFailed { retry } => if retry {
                (StateModel::AwaitingParameters, Action::RequestParameters)
            } else {
                (
                    StateModel::Failed { failure: Failure::Detection },
                    Action::Abort { failure: Failure::Detection },
                )
            },
            _ => (state, Action::Ignore),
        },
        StateModel::ReanalysisDecision { parameters, cut_points } => match event {
            EventModel::Reanalyze => (StateModel::AwaitingParameters, Action::RequestParameters),
            EventModel::Proceed => after_proceeding(cut_points),
            _ => (state, Action::Ignore),
        },
        StateModel::Splitting { segments, position, allocated: None } => match event {
            EventModel::Allocated { first_index } => after_allocation(segments, first_index),
            EventModel::AllocationFailed => (
                StateModel::Failed { failure: Failure::Allocation },
                Action::Abort { failure: Failure::Allocation },
            ),
            _ => (state, Action::Ignore),
        },
        StateModel::Splitting { segments, position, allocated: Some(first_index) } => match event {
            EventModel::Extracted => after_extraction(segments, position, first_index),
            EventModel::ExtractionFailed => after_failed_extraction(segments, position),
            _ => (state, Action::Ignore),
        },
        StateModel::Done { .. } => (state, Action::Ignore),
        StateModel::Failed { .. } => (state, Action::Ignore),
    }
}

/// A state that steps from the initial state can reach: while splitting, a
/// segment of the plan is under way and its output index exists.
pub open spec fn well_formed(state: StateModel) -> bool {
    match state {
        StateModel::Detecting { parameters } => parameters.acceptable(),
        StateModel::ReanalysisDecision { parameters, cut_points } => parameters.acceptable()
            && cut_points.len() >= 1,
        StateModel::Splitting { segments, position, allocated: None } => position == 0,
        StateModel::Splitting { segments, position, allocated: Some(first_index) } => position
            < segments.len() && first_index + position <= usize::MAX,
        _ => true,
    }
}

/// The state after `count` successful extractions in a row, and the action
/// that the last of them led to.
pub open spec fn after_extractions(state: StateModel, count: nat) -> (StateModel, Action)
    decreases count,
{
    if count == 0 {
        (state, Action::Ignore)
    } else {
        transition(after_extractions(state, (count - 1) as nat).0, EventModel::Extracted)
    }
}

impl State {
    /// The state in which every file begins.
    pub fn new() -> (state: State)
        ensures
            state@ == StateModel::AwaitingParameters,
    {
        State::AwaitingParameters
    }

    /// Whether nothing more will happen for this file.
    pub fn is_finished(&self) -> (finished: bool)
        ensures
            finished == (self@ is Done || self@ is Failed),
    {
        match self {
            State::Done { .. } => true,
            State::Failed { .. } => true,
            _ => false,
        }
    }
}

/// Takes one step: returns the state that follows `state` when `event` has
/// happened, and what the caller is to do next.
pub fn step(state: State, event: Event) -> (next: (State, Action))
    ensures
        (next.0@, next.1) == transition(state@, event@),
{
    match state {
        State::AwaitingParameters => match event {
            Event::Parameters { parameters } => if parameters.is_acceptable() {
                (State::Detecting { parameters }, Action::Detect { parameters })
            } else {
                (State::AwaitingParameters, Action::RejectParameters)
            },
            _ => (State::AwaitingParameters, Action::Ignore),
        },
        State::Detecting { parameters } => match event {
            Event::Detected { silences, total } => if total > 0 {
                let cut_points = compute_cut_points(&silences, parameters.min_silence, total);
                let segment_count = plan_segments(&cut_points).len();
                (
                    State::ReanalysisDecision { parameters, cut_points },
                    Action::Decide { segment_count },
                )
            } else {
                (
                    State::Failed { failure: Failure::Detection },
                    Action::Abort { failure: Failure::Detection },
                )
            },
            Event::DetectionFailed { retry } => if retry {
                (State::AwaitingParameters, Action::RequestParameters)
            } else {
                (
                    State::Failed { failure: Failure::Detection },
                    Action::Abort { failure: Failure::Detection },
                )
            },
            _ => (State::Detecting { parameters }, Action::Ignore),
        },
        State::ReanalysisDecision { parameters, cut_points } => match event {
            Event::Reanalyze => (State::AwaitingParameters, Action::RequestParameters),
            Event::Proceed => {
                let segments = plan_segments(&cut_points);
                (State::Splitting { segments, position: 0, allocated: None }, Action::Allocate)
            },
            _ => (State::ReanalysisDecision { parameters, cut_points }, Action::Ignore),
        },
        State::Splitting { segments, position, allocated: None } => match event {
            Event::Allocated { first_index } => if segments.len() == 0 {
                (State::Done { segments, first_index }, Action::Finish { count: 0 })
            } else {
                let segment = segments[0];
                (
                    State::Splitting { segments, position: 0, allocated: Some(first_index) },
                    Action::Extract { segment, index: first_index },
                )
            },
            Event::AllocationFailed => (
                State::Failed { failure: Failure::Allocation },
                Action::Abort { failure: Failure::Allocation },
            ),
            _ => (State::Splitting { segments, position, allocated: None }, Action::Ignore),
        },
        State::Splitting { segments, position, allocated: Some(first_index) } => match event {
            Event::Extracted => {
                if segments.len() > 0 && position < segments.len() - 1 {
                    if position + 1 <= usize::MAX - first_index {
                        let segment = segments[position + 1];
                        (
                            State::Splitting {
                                segments,
                                position: position + 1,
                                allocated: Some(first_index),
                            },
                            Action::Extract { segment, index: first_index + position + 1 },
                        )
                    } else {
                        (
                            State::Failed { failure: Failure::IndexExhausted },
                            Action::Abort { failure: Failure::IndexExhausted },
                        )
                    }
                } else {
                    let count = segments.len();
                    (State::Done { segments, first_index }, Action::Finish { count })
                }
            },
            Event::ExtractionFailed => {
                let ordinal = if position < segments.len() {
                    segments[position].ordinal
                } else {
                    0
                };
                let failure = Failure::Extraction { ordinal };
                (State::Failed { failure }, Action::Abort { failure })
            },
            _ => (
                State::Splitting { segments, position, allocated: Some(first_index) },
                Action::Ignore,
            ),
        },
        State::Done { segments, first_index } => (
            State::Done { segments, first_index },
            Action::Ignore,
        ),
        State::Failed { failure } => (State::Failed { failure }, Action::Ignore),
    }
}

/// Once a file is done or has failed, no event changes its state.
pub proof fn law_finished_states_absorb(state: StateModel, event: EventModel)
    requires
        state is Done || state is Failed,
    ensures
        transition(state, event) == (state, Action::Ignore),
{
}

/// A file fails only while detecting or splitting.
pub proof fn law_failure_comes_from_work(state: StateModel, event: EventModel)
    requires
        !(state is Failed),
        transition(state, event).0 is Failed,
    ensures
        state is Detecting || state is Splitting,
{
}

/// No step leads out of the well-formed states.
pub proof fn law_steps_keep_well_formed(state: StateModel, event: EventModel)
    requires
        well_formed(state),
    ensures
        well_formed(transition(state, event).0),
{
    match state {
        StateModel::ReanalysisDecision { parameters, cut_points } => {
            crate::planner::lemma_plan_length(cut_points);
        },
        _ => {},
    }
}

/// The output index is allocated once for a file: while segments are being
/// extracted, a further allocation changes nothing.
pub proof fn law_index_is_allocated_once(
    segments: Seq<Segment>,
    position: usize,
    first_index: usize,
    other: usize,
)
    ensures
        transition(
            StateModel::Splitting { segments, position, allocated: Some(first_index) },
            EventModel::Allocated { first_index: other },
        ) == (
            StateModel::Splitting { segments, position, allocated: Some(first_index) },
            Action::Ignore,
        ),
{
}

/// Cut points are only ever computed for a file of positive length: a
/// detection that reports a length of zero fails the file, whatever else it
/// reports.
pub proof fn law_a_file_without_length_fails(
    parameters: Parameters,
    silences: Seq<SilenceInterval>,
)
    ensures
        transition(
            StateModel::Detecting { parameters },
            EventModel::Detected { silences, total: 0 },
        ) == (
            StateModel::Failed { failure: Failure::Detection },
            Action::Abort { failure: Failure::Detection },
        ),
{
}

/// Analysing again starts over: it leads back to the request for parameters
/// whatever was detected, and carries neither cut points nor an index along.
pub proof fn law_reanalysis_starts_over(parameters: Parameters, cut_points: Seq<u64>)
    ensures
        transition(
            StateModel::ReanalysisDecision { parameters, cut_points },
            EventModel::Reanalyze,
        ) == (StateModel::AwaitingParameters, Action::RequestParameters),
{
}

/// Splitting walks through the plan in order. After `count` successful
/// extractions segment `count` is under way, into the file whose index is the
/// first index plus `count`; after as many as there are segments the file is
/// done, every segment extracted.
pub proof fn law_extractions_run_in_order(segments: Seq<Segment>, first_index: usize, count: nat)
    requires
        1 <= count <= segments.len(),
        first_index + segments.len() - 1 <= usize::MAX,
        segments.len() <= usize::MAX,
    ensures
        count < segments.len() ==> after_extractions(
            StateModel::Splitting { segments, position: 0, allocated: Some(first_index) },
            count,
        ) == (
            StateModel::Splitting {
                segments,
                position: count as usize,
                allocated: Some(first_index),
            },
            Action::Extract {
                segment: segments[count as int],
                index: (first_index + count) as usize,
            },
        ),
        count == segments.len() ==> after_extractions(
            StateModel::Splitting { segments, position: 0, allocated: Some(first_index) },
            count,
        ) == (
            StateModel::Done { segments, first_index },
            Action::Finish { count: segments.len() as usize },
        ),
    decreases count,
{
    let start = StateModel::Splitting { segments, position: 0, allocated: Some(first_index) };
    if count == 1 {
        assert(after_extractions(start, 0).0 == start);
    } else {
        law_extractions_run_in_order(segments, first_index, (count - 1) as nat);
    }
}

} // verus!
