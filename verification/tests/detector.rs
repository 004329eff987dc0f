use silence_split::cut_points::compute_cut_points;
use silence_split::detector::{
    classify_line, decode_detector_log, decode_lines, decode_markers, marker_from_captures,
    DecodeError, Marker, OrphanedEnd,
};
use silence_split::matcher::Matcher;
use silence_split::silence::SilenceInterval;

fn lines(list: &[&str]) -> Vec<String> {
    list.iter().map(|line| line.to_string()).collect()
}

fn text(value: &str) -> Option<String> {
    Some(value.to_string())
}

#[test]
fn starts_and_ends_pair_into_silences() {
    let log = lines(&[
        "Input #0, mp3, from 'talk.mp3':",
        "[silencedetect @ 0x5581] silence_start: 2.0",
        "[silencedetect @ 0x5581] silence_end: 4.5 | silence_duration: 2.5",
        "size=N/A time=00:00:10.00 bitrate=N/A speed= 512x",
        "[silencedetect @ 0x5581] silence_start: 7.25",
        "[silencedetect @ 0x5581] silence_end: 8.75 | silence_duration: 1.5",
    ]);
    let report = decode_detector_log(&log).unwrap();
    assert_eq!(
        report.silences,
        vec![
            SilenceInterval { start: 2_000_000, end: 4_500_000, duration: 2_500_000 },
            SilenceInterval { start: 7_250_000, end: 8_750_000, duration: 1_500_000 },
        ]
    );
    assert!(report.orphans.is_empty());
    assert!(report.open_starts.is_empty());
}

#[test]
fn an_end_without_a_start_is_set_aside() {
    let log = lines(&[
        "[silencedetect @ 0x5581] silence_end: 1.5 | silence_duration: 1.5",
        "[silencedetect @ 0x5581] silence_start: 2.0",
        "[silencedetect @ 0x5581] silence_end: 4.5 | silence_duration: 2.5",
    ]);
    let report = decode_detector_log(&log).unwrap();
    assert_eq!(report.orphans, vec![OrphanedEnd { end: 1_500_000, duration: 1_500_000 }]);
    assert_eq!(
        report.silences,
        vec![SilenceInterval { start: 2_000_000, end: 4_500_000, duration: 2_500_000 }]
    );
    let cuts = compute_cut_points(&report.silences, 2_000_000, 10_000_000);
    assert_eq!(cuts, vec![3_250_000, 10_000_000]);
}

#[test]
fn an_empty_log_reports_nothing() {
    let report = decode_detector_log(&Vec::new()).unwrap();
    assert!(report.silences.is_empty());
    assert!(report.orphans.is_empty());
    assert!(report.open_starts.is_empty());
}

#[test]
fn a_start_that_never_ends_stays_open() {
    let log = lines(&["silence_start: 1.0", "silence_start: 3.5"]);
    let report = decode_detector_log(&log).unwrap();
    assert!(report.silences.is_empty());
    assert_eq!(report.open_starts, vec![1_000_000, 3_500_000]);
}

#[test]
fn lines_without_a_decimal_point_carry_no_marker() {
    let log = lines(&[
        "silence_start: 2",
        "silence_start: -0.5",
        "silence_start:3.0",
        "silence_end: 4.5 | silence_duration: 2",
        "silence_end: 4.5 silence_duration: 2.5",
        "Silence_start: 1.0",
    ]);
    let report = decode_detector_log(&log).unwrap();
    assert!(report.silences.is_empty());
    assert!(report.orphans.is_empty());
    assert!(report.open_starts.is_empty());
}

#[test]
fn a_marker_is_found_anywhere_in_its_line() {
    let log = lines(&[
        "xx silence_start: 12.5yy",
        "silence_start: silence_end: 13.0 | silence_duration: 0.5 trailing",
    ]);
    let report = decode_detector_log(&log).unwrap();
    assert_eq!(
        report.silences,
        vec![SilenceInterval { start: 12_500_000, end: 13_000_000, duration: 500_000 }]
    );
}

#[test]
fn a_start_takes_precedence_on_a_line_with_both() {
    let log = lines(&["silence_end: 3.0 | silence_duration: 1.0 silence_start: 2.0"]);
    let report = decode_detector_log(&log).unwrap();
    assert!(report.silences.is_empty());
    assert!(report.orphans.is_empty());
    assert_eq!(report.open_starts, vec![2_000_000]);
}

#[test]
fn a_number_in_another_script_stops_decoding() {
    let start = lines(&["silence_start: 1.0", "silence_start: \u{661}.\u{662}"]);
    assert_eq!(decode_detector_log(&start).unwrap_err(), DecodeError::StartTime { line: 1 });
    let end = lines(&["silence_end: \u{661}.5 | silence_duration: 1.5"]);
    assert_eq!(decode_detector_log(&end).unwrap_err(), DecodeError::EndTime { line: 0 });
    let duration = lines(&["", "", "silence_end: 1.5 | silence_duration: 1.\u{665}"]);
    assert_eq!(decode_detector_log(&duration).unwrap_err(), DecodeError::Duration { line: 2 });
}

#[test]
fn a_number_too_large_stops_decoding() {
    let log = lines(&["silence_start: 99999999999999999999.0"]);
    assert_eq!(decode_detector_log(&log).unwrap_err(), DecodeError::StartTime { line: 0 });
}

#[test]
fn an_end_closes_the_most_recent_open_start() {
    let markers = vec![
        Marker::Start { time: Some(1_000_000) },
        Marker::Other,
        Marker::Start { time: Some(2_000_000) },
        Marker::End { time: Some(3_000_000), duration: Some(1_000_000) },
        Marker::End { time: Some(4_000_000), duration: Some(3_000_000) },
        Marker::End { time: Some(5_000_000), duration: Some(500_000) },
        Marker::Start { time: Some(6_000_000) },
    ];
    let report = decode_markers(&markers).unwrap();
    assert_eq!(
        report.silences,
        vec![
            SilenceInterval { start: 2_000_000, end: 3_000_000, duration: 1_000_000 },
            SilenceInterval { start: 1_000_000, end: 4_000_000, duration: 3_000_000 },
        ]
    );
    assert_eq!(report.orphans, vec![OrphanedEnd { end: 5_000_000, duration: 500_000 }]);
    assert_eq!(report.open_starts, vec![6_000_000]);
}

#[test]
fn the_first_unreadable_marker_decides_the_error() {
    let markers = vec![
        Marker::Other,
        Marker::End { time: Some(1), duration: None },
        Marker::Start { time: None },
    ];
    assert_eq!(decode_markers(&markers).unwrap_err(), DecodeError::Duration { line: 1 });
    let markers = vec![Marker::End { time: None, duration: None }];
    assert_eq!(decode_markers(&markers).unwrap_err(), DecodeError::EndTime { line: 0 });
    let markers = vec![Marker::Start { time: Some(1) }, Marker::Start { time: None }];
    assert_eq!(decode_markers(&markers).unwrap_err(), DecodeError::StartTime { line: 1 });
}

#[test]
fn every_end_becomes_a_silence_or_an_orphan() {
    let markers = vec![
        Marker::End { time: Some(1), duration: Some(1) },
        Marker::Start { time: Some(2) },
        Marker::End { time: Some(3), duration: Some(1) },
        Marker::End { time: Some(4), duration: Some(1) },
        Marker::Start { time: Some(5) },
        Marker::Start { time: Some(6) },
        Marker::End { time: Some(7), duration: Some(1) },
    ];
    let report = decode_markers(&markers).unwrap();
    assert_eq!(report.silences.len() + report.orphans.len(), 4);
    assert_eq!(report.silences.len() + report.open_starts.len(), 3);
}

#[test]
fn captures_become_markers() {
    assert_eq!(
        marker_from_captures(&text("2.5"), &None, &None),
        Marker::Start { time: Some(2_500_000) }
    );
    assert_eq!(
        marker_from_captures(&text("2.5"), &text("3.0"), &text("0.5")),
        Marker::Start { time: Some(2_500_000) }
    );
    assert_eq!(marker_from_captures(&text("x"), &None, &None), Marker::Start { time: None });
    assert_eq!(
        marker_from_captures(&None, &text("3.0"), &text("0.5")),
        Marker::End { time: Some(3_000_000), duration: Some(500_000) }
    );
    assert_eq!(
        marker_from_captures(&None, &text("3.0"), &text("")),
        Marker::End { time: Some(3_000_000), duration: None }
    );
    assert_eq!(marker_from_captures(&None, &text("3.0"), &None), Marker::Other);
    assert_eq!(marker_from_captures(&None, &None, &text("0.5")), Marker::Other);
    assert_eq!(marker_from_captures(&None, &None, &None), Marker::Other);
}

#[test]
fn a_line_is_classified_with_the_given_patterns() {
    let start = Matcher::new(r"begin (?P<start>\d+)").unwrap();
    let end = Matcher::new(r"stop (?P<end>\d+) after (?P<duration>\d+)").unwrap();
    assert_eq!(classify_line(&start, &end, "begin 12"), Marker::Start { time: Some(12_000_000) });
    assert_eq!(
        classify_line(&start, &end, "stop 15 after 3"),
        Marker::End { time: Some(15_000_000), duration: Some(3_000_000) }
    );
    assert_eq!(classify_line(&start, &end, "stop 15"), Marker::Other);
    let nameless = Matcher::new(r"stop (\d+) after (\d+)").unwrap();
    assert_eq!(classify_line(&start, &nameless, "stop 15 after 3"), Marker::Other);
}

#[test]
fn a_log_is_decoded_with_the_given_patterns() {
    let start = Matcher::new(r"begin (?P<start>\d+)").unwrap();
    let end = Matcher::new(r"stop (?P<end>\d+) after (?P<duration>\d+)").unwrap();
    let log = lines(&["stop 1 after 1", "begin 2", "noise", "stop 5 after 3"]);
    let report = decode_lines(&start, &end, &log).unwrap();
    assert_eq!(
        report.silences,
        vec![SilenceInterval { start: 2_000_000, end: 5_000_000, duration: 3_000_000 }]
    );
    assert_eq!(report.orphans, vec![OrphanedEnd { end: 1_000_000, duration: 1_000_000 }]);
    let loose = Matcher::new(r"begin (?P<start>\w+)").unwrap();
    let log = lines(&["begin 2", "begin soon"]);
    assert_eq!(decode_lines(&loose, &end, &log).unwrap_err(), DecodeError::StartTime { line: 1 });
}
