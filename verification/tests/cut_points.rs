use silence_split::cut_points::compute_cut_points;
use silence_split::planner::{plan_segments, Segment};
use silence_split::silence::{SilenceInterval, EPSILON};

fn silence(start: u64, end: u64, duration: u64) -> SilenceInterval {
    SilenceInterval { start, end, duration }
}

#[test]
fn one_long_silence_is_cut_in_its_middle() {
    let silences = vec![silence(2_000_000, 4_500_000, 2_500_000)];
    let cuts = compute_cut_points(&silences, 2_000_000, 10_000_000);
    assert_eq!(cuts, vec![3_250_000, 10_000_000]);
    let segments = plan_segments(&cuts);
    assert_eq!(
        segments,
        vec![
            Segment { start: 0, duration: 3_250_000, ordinal: 1 },
            Segment { start: 3_250_000, duration: 6_750_000, ordinal: 2 },
        ]
    );
}

#[test]
fn without_a_long_silence_the_file_is_one_segment() {
    let silences = vec![silence(1_000_000, 1_500_000, 500_000)];
    let cuts = compute_cut_points(&silences, 2_000_000, 7_000_000);
    assert_eq!(cuts, vec![7_000_000]);
    assert_eq!(plan_segments(&cuts), vec![Segment { start: 0, duration: 7_000_000, ordinal: 1 }]);
}

#[test]
fn an_empty_report_gives_the_end_of_the_file() {
    let cuts = compute_cut_points(&Vec::new(), 1, 7_000_000);
    assert_eq!(cuts, vec![7_000_000]);
}

#[test]
fn a_silence_of_exactly_the_minimum_counts() {
    let silences = vec![silence(1_000_000, 3_000_000, 2_000_000)];
    assert_eq!(compute_cut_points(&silences, 2_000_000, 9_000_000), vec![2_000_000, 9_000_000]);
    assert_eq!(compute_cut_points(&silences, 2_000_001, 9_000_000), vec![9_000_000]);
}

#[test]
fn the_midpoint_is_rounded_down() {
    let silences = vec![silence(10, 17, 7)];
    assert_eq!(compute_cut_points(&silences, 1, 1_000_000), vec![13, 1_000_000]);
}

#[test]
fn the_midpoint_uses_start_and_duration_only() {
    let silences = vec![silence(1_000_000, 0, 4_000_000)];
    assert_eq!(compute_cut_points(&silences, 1, 60_000_000), vec![3_000_000, 60_000_000]);
}

#[test]
fn a_cut_close_to_the_end_closes_the_list() {
    let total = 10_000_000;
    let at_the_margin = vec![silence(total - EPSILON - 1, total, 2)];
    assert_eq!(compute_cut_points(&at_the_margin, 1, total), vec![total - EPSILON]);
    let before_the_margin = vec![silence(total - EPSILON - 2, total, 2)];
    assert_eq!(
        compute_cut_points(&before_the_margin, 1, total),
        vec![total - EPSILON - 1, total]
    );
}

#[test]
fn a_cut_beyond_the_end_is_left_alone() {
    let silences = vec![silence(12_000_000, 14_000_000, 2_000_000)];
    assert_eq!(compute_cut_points(&silences, 1, 10_000_000), vec![13_000_000]);
}

#[test]
fn a_file_shorter_than_the_margin_still_gets_its_end() {
    assert_eq!(compute_cut_points(&Vec::new(), 1, 5), vec![5]);
    let silences = vec![silence(0, 4, 4)];
    assert_eq!(compute_cut_points(&silences, 1, 5), vec![2]);
}

#[test]
fn a_midpoint_past_the_largest_timestamp_is_held_there() {
    let silences = vec![silence(u64::MAX - 1, u64::MAX, 10)];
    assert_eq!(compute_cut_points(&silences, 1, u64::MAX), vec![u64::MAX]);
    assert_eq!(silences[0].cut(), u64::MAX);
}

#[test]
fn short_silences_between_long_ones_are_skipped() {
    let silences = vec![
        silence(1_000_000, 4_000_000, 3_000_000),
        silence(5_000_000, 5_500_000, 500_000),
        silence(8_000_000, 10_000_000, 2_000_000),
    ];
    assert_eq!(
        compute_cut_points(&silences, 2_000_000, 20_000_000),
        vec![2_500_000, 9_000_000, 20_000_000]
    );
}

#[test]
fn the_same_inputs_give_the_same_cut_points() {
    let silences = vec![
        silence(1_000_000, 4_000_000, 3_000_000),
        silence(8_000_000, 10_000_000, 2_000_000),
    ];
    let first = compute_cut_points(&silences, 2_000_000, 20_000_000);
    let second = compute_cut_points(&silences, 2_000_000, 20_000_000);
    assert_eq!(first, second);
}

#[test]
fn cut_points_of_an_orderly_report_rise_to_the_end() {
    let total = 30_000_000;
    let silences = vec![
        silence(0, 1_000_000, 1_000_000),
        silence(1_000_000, 1_000_001, 1),
        silence(5_000_000, 9_000_000, 4_000_000),
        silence(29_000_000, 30_000_000, 1_000_000),
    ];
    for min_silence in [1, 2, 1_000_000, 4_000_000, 4_000_001] {
        let cuts = compute_cut_points(&silences, min_silence, total);
        assert!(!cuts.is_empty());
        for pair in cuts.windows(2) {
            assert!(pair[0] < pair[1]);
        }
        let last = *cuts.last().unwrap();
        assert!(last <= total && total - last <= EPSILON);
    }
}

#[test]
fn cut_points_of_a_disorderly_report_follow_the_report() {
    let silences = vec![silence(5_000_000, 6_000_000, 1_000_000), silence(2_000_000, 3_000_000, 1_000_000)];
    assert_eq!(
        compute_cut_points(&silences, 1_000_000, 10_000_000),
        vec![5_500_000, 2_500_000, 10_000_000]
    );
}
