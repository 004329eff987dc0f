//! Reading the silence detector's log: from its lines to the intervals it
//! reports.
//!
//! The detector announces the start of a silence on one line and its end,
//! with the duration, on a later one. An end is paired with the most recent
//! start that is still open.

use crate::matcher::Matcher;
use crate::pattern::{captured_text, regex_accepts, regex_capture};
use crate::silence::SilenceInterval;
use crate::timestamp::{parse_seconds, timestamp_written};
use vstd::prelude::*;

verus! {

/// What one line of the log announces. A time is `None` where the line
/// carries the marker but its number cannot be read as a timestamp.
#[derive(Clone, Copy, Debug, PartialEq, Eq, Structural)]
pub enum Marker {
    /// A silence begins.
    Start { time: Option<u64> },
    /// A silence is over.
    End { time: Option<u64>, duration: Option<u64> },
    /// The line says nothing about silence.
    Other,
}

/// An end that no open start preceded. It is reported, not paired.
#[derive(Clone, Copy, Debug, PartialEq, Eq, Structural)]
pub struct OrphanedEnd {
    pub end: u64,
    pub duration: u64,
}

/// Why a log could not be decoded. `line` counts from zero.
#[derive(Clone, Copy, Debug, PartialEq, Eq, Structural)]
pub enum DecodeError {
    /// The engine refused one of the two marker patterns.
    Pattern,
    /// The time of a start marker is no timestamp.
    StartTime { line: usize },
    /// The time of an end marker is no timestamp.
    EndTime { line: usize },
    /// The duration of an end marker is no timestamp.
    Duration { line: usize },
}

/// What a log amounts to.
#[derive(Debug)]
pub struct DetectorReport {
    /// The silences, in the order in which they ended.
    pub silences: Vec<SilenceInterval>,
    /// The ends that had no start, in the order of the log.
    pub orphans: Vec<OrphanedEnd>,
    /// The starts that were still open when the log was over, oldest first.
    pub open_starts: Vec<u64>,
}

/// The contents of a report.
pub struct Decoding {
    pub silences: Seq<SilenceInterval>,
    pub orphans: Seq<OrphanedEnd>,
    pub open_starts: Seq<u64>,
}

impl View for DetectorReport {
    type V = Decoding;

    open spec fn view(&self) -> Decoding {
        Decoding {
            silences: self.silences@,
            orphans: self.orphans@,
            open_starts: self.open_starts@,
        }
    }
}

/// The report of an empty log.
pub open spec fn nothing_decoded() -> Decoding {
    Decoding { silences: Seq::empty(), orphans: Seq::empty(), open_starts: Seq::empty() }
}

/// The effect of the marker on line `line` on what was decoded before it.
pub open spec fn after_marker(before: Decoding, marker: Marker, line: int) -> Result<
    Decoding,
    DecodeError,
> {
    match marker {
        Marker::Other => Ok(before),
        Marker::Start { time: None } => Err(DecodeError::StartTime { line: line as usize }),
        Marker::Start { time: Some(start) } => Ok(
            Decoding { open_starts: before.open_starts.push(start), ..before },
        ),
        Marker::End { time: None, duration: _ } => Err(DecodeError::EndTime { line: line as usize }),
        Marker::End { time: Some(_), duration: None } => Err(
            DecodeError::Duration { line: line as usize },
        ),
        Marker::End { time: Some(end), duration: Some(duration) } => if before.open_starts.len()
            > 0 {
            Ok(
                Decoding {
                    silences: before.silences.push(
                        SilenceInterval { start: before.open_starts.last(), end, duration },
                    ),
                    open_starts: before.open_starts.drop_last(),
                    ..before
                },
            )
        } else {
            Ok(Decoding { orphans: before.orphans.push(OrphanedEnd { end, duration }), ..before })
        },
    }
}

/// What a sequence of markers decodes to: the markers take effect one after
/// the other, and the first one that fails decides the error.
pub open spec fn decoded(markers: Seq<Marker>) -> Result<Decoding, DecodeError>
    decreases markers.len(),
{
    if markers.len() == 0 {
        Ok(nothing_decoded())
    } else {
        match decoded(markers.drop_last()) {
            Ok(before) => after_marker(before, markers.last(), markers.len() - 1),
            Err(error) => Err(error),
        }
    }
}

/// The marker of a line, given what the start pattern captured in it as
/// `start` and the end pattern as `end` and `duration`. A start takes
/// precedence over an end on the same line.
pub open spec fn marker_of(
    start: Option<Seq<char>>,
    end: Option<Seq<char>>,
    duration: Option<Seq<char>>,
) -> Marker {
    match start {
        Some(time) => Marker::Start { time: timestamp_written(time) },
        None => match (end, duration) {
            (Some(time), Some(length)) => Marker::End {
                time: timestamp_written(time),
                duration: timestamp_written(length),
            },
            _ => Marker::Other,
        },
    }
}

/// The pattern of a start marker.
pub open spec fn start_pattern_text() -> Seq<char> {
    "silence_start: (?P<start>\\d+\\.\\d+)"@
}

/// The pattern of an end marker.
pub open spec fn end_pattern_text() -> Seq<char> {
    "silence_end: (?P<end>\\d+\\.\\d+) \\| silence_duration: (?P<duration>\\d+\\.\\d+)"@
}

/// The marker that a line carries, as the two patterns find it.
pub open spec fn line_marker(start_pattern: Seq<char>, end_pattern: Seq<char>, line: Seq<char>) -> Marker {
    marker_of(
        regex_capture(start_pattern, "start"@, line),
        regex_capture(end_pattern, "end"@, line),
        regex_capture(end_pattern, "duration"@, line),
    )
}

/// The markers that the two patterns find in the lines of a log.
pub open spec fn markers_found(
    start_pattern: Seq<char>,
    end_pattern: Seq<char>,
    lines: Seq<String>,
) -> Seq<Marker> {
    Seq::new(lines.len(), |i: int| line_marker(start_pattern, end_pattern, lines[i]@))
}

/// What the detector's log decodes to. Where the engine refuses one of the
/// two marker patterns, nothing is decoded.
pub open spec fn log_decoded(lines: Seq<String>) -> Result<Decoding, DecodeError> {
    if regex_accepts(start_pattern_text()) && regex_accepts(end_pattern_text()) {
        decoded(markers_found(start_pattern_text(), end_pattern_text(), lines))
    } else {
        Err(DecodeError::Pattern)
    }
}

/// Whether `outcome` is the exec form of `expected`.
pub open spec fn reports(
    outcome: Result<DetectorReport, DecodeError>,
    expected: Result<Decoding, DecodeError>,
) -> bool {
    match outcome {
        Ok(report) => expected == Ok::<Decoding, DecodeError>(report@),
        Err(error) => expected == Err::<Decoding, DecodeError>(error),
    }
}

/// Once a prefix of the markers has failed, the whole sequence fails in the
/// same way.
pub proof fn lemma_first_error_decides(markers: Seq<Marker>, k: int)
    requires
        0 <= k <= markers.len(),
        decoded(markers.take(k)) is Err,
    ensures
        decoded(markers) == decoded(markers.take(k)),
    decreases markers.len() - k,
{
    if k == markers.len() {
        assert(markers.take(k) == markers);
    } else {
        assert(markers.take(k + 1).drop_last() == markers.take(k));
        lemma_first_error_decides(markers, k + 1);
    }
}

/// The number of start markers among `markers`.
pub open spec fn count_starts(markers: Seq<Marker>) -> nat
    decreases markers.len(),
{
    if markers.len() == 0 {
        0
    } else if markers.last() is Start {
        count_starts(markers.drop_last()) + 1
    } else {
        count_starts(markers.drop_last())
    }
}

/// The number of end markers among `markers`.
pub open spec fn count_ends(markers: Seq<Marker>) -> nat
    decreases markers.len(),
{
    if markers.len() == 0 {
        0
    } else if markers.last() is End {
        count_ends(markers.drop_last()) + 1
    } else {
        count_ends(markers.drop_last())
    }
}

/// Where decoding succeeds, nothing is lost: every end has become a silence
/// or an orphan, and every start has become a silence or is still open.
pub proof fn law_every_marker_is_accounted_for(markers: Seq<Marker>)
    requires
        decoded(markers) is Ok,
    ensures
        decoded(markers)->Ok_0.silences.len() + decoded(markers)->Ok_0.orphans.len() == count_ends(
            markers,
        ),
        decoded(markers)->Ok_0.silences.len() + decoded(markers)->Ok_0.open_starts.len()
            == count_starts(markers),
    decreases markers.len(),
{
    if markers.len() > 0 {
        law_every_marker_is_accounted_for(markers.drop_last());
    }
}

/// Builds the marker of a line from what the patterns captured in it.
pub fn marker_from_captures(
    start: &Option<String>,
    end: &Option<String>,
    duration: &Option<String>,
) -> (marker: Marker)
    ensures
        marker == marker_of(captured_text(*start), captured_text(*end), captured_text(*duration)),
{
    match start {
        Some(time) => Marker::Start { time: parse_seconds(time.as_str()) },
        None => match (end, duration) {
            (Some(time), Some(length)) => Marker::End {
                time: parse_seconds(time.as_str()),
                duration: parse_seconds(length.as_str()),
            },
            _ => Marker::Other,
        },
    }
}

/// Finds the marker of one line with the two compiled patterns.
pub fn classify_line(start_pattern: &Matcher, end_pattern: &Matcher, line: &str) -> (marker: Marker)
    ensures
        marker == line_marker(start_pattern@, end_pattern@, line@),
{
    let start = start_pattern.capture("start", line);
    if start.is_some() {
        marker_from_captures(&start, &None, &None)
    } else {
        let end = end_pattern.capture("end", line);
        let duration = end_pattern.capture("duration", line);
        marker_from_captures(&start, &end, &duration)
    }
}

/// Pairs the markers of a log into silences. An end without an open start is
/// set aside as an orphan and decoding goes on; a marker whose number cannot
/// be read stops decoding with an error.
pub fn decode_markers(markers: &Vec<Marker>) -> (outcome: Result<DetectorReport, DecodeError>)
    ensures
        reports(outcome, decoded(markers@)),
{
    let mut report = DetectorReport {
        silences: Vec::new(),
        orphans: Vec::new(),
        open_starts: Vec::new(),
    };
    let mut i: usize = 0;
    while i < markers.len()
        invariant
            0 <= i <= markers.len(),
            decoded(markers@.take(i as int)) == Ok::<Decoding, DecodeError>(report@),
        decreases markers.len() - i,
    {
        proof {
            assert(markers@.take(i + 1).drop_last() == markers@.take(i as int));
            assert(markers@.take(i + 1).last() == markers@[i as int]);
        }
        let ghost before = report@;
        match markers[i] {
            Marker::Other => {},
            Marker::Start { time: None } => {
                proof {
                    lemma_first_error_decides(markers@, i + 1);
                }
                return Err(DecodeError::StartTime { line: i });
            },
            Marker::Start { time: Some(start) } => {
                report.open_starts.push(start);
            },
            Marker::End { time: None, duration: _ } => {
                proof {
                    lemma_first_error_decides(markers@, i + 1);
                }
                return Err(DecodeError::EndTime { line: i });
            },
            Marker::End { time: Some(_), duration: None } => {
                proof {
                    lemma_first_error_decides(markers@, i + 1);
                }
                return Err(DecodeError::Duration { line: i });
            },
            Marker::End { time: Some(end), duration: Some(duration) } => {
                match report.open_starts.pop() {
                    Some(start) => {
                        report.silences.push(SilenceInterval { start, end, duration });
                    },
                    None => {
                        report.orphans.push(OrphanedEnd { end, duration });
                    },
                }
            },
        }
        proof {
            assert(after_marker(before, markers@[i as int], i as int) == Ok::<
                Decoding,
                DecodeError,
            >(report@));
        }
        i += 1;
    }
    proof {
        assert(markers@.take(i as int) == markers@);
    }
    Ok(report)
}

/// Decodes a log, given line by line, with the two compiled marker
/// patterns.
pub fn decode_lines(start_pattern: &Matcher, end_pattern: &Matcher, lines: &Vec<String>) -> (outcome:
    Result<DetectorReport, DecodeError>)
    ensures
        reports(outcome, decoded(markers_found(start_pattern@, end_pattern@, lines@))),
{
    let mut markers: Vec<Marker> = Vec::new();
    let mut i: usize = 0;
    while i < lines.len()
        invariant
            0 <= i <= lines.len(),
            markers@.len() == i,
            forall|k: int|
                0 <= k < i ==> #[trigger] markers@[k] == line_marker(
                    start_pattern@,
                    end_pattern@,
                    lines@[k]@,
                ),
        decreases lines.len() - i,
    {
        let marker = classify_line(start_pattern, end_pattern, lines[i].as_str());
        markers.push(marker);
        i += 1;
    }
    proof {
        assert(markers@ =~= markers_found(start_pattern@, end_pattern@, lines@));
    }
    decode_markers(&markers)
}

/// Decodes the detector's log, given line by line. The error is
/// `DecodeError::Pattern` exactly where the engine refuses one of the two
/// marker patterns.
pub fn decode_detector_log(lines: &Vec<String>) -> (outcome: Result<DetectorReport, DecodeError>)
    ensures
        reports(outcome, log_decoded(lines@)),
{
    let start_pattern = Matcher::new("silence_start: (?P<start>\\d+\\.\\d+)");
    let end_pattern = Matcher::new(
        "silence_end: (?P<end>\\d+\\.\\d+) \\| silence_duration: (?P<duration>\\d+\\.\\d+)",
    );
    match (start_pattern, end_pattern) {
        (Some(start), Some(end)) => decode_lines(&start, &end, lines),
        _ => Err(DecodeError::Pattern),
    }
}

} // verus!
