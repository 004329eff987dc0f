use silence_split::matcher::Matcher;
use silence_split::allocator::{
    capture_indices, get_next_file_index, index_pattern, next_index_after, next_index_with,
    output_file_name, parse_index, AllocationError,
};

fn names(list: &[&str]) -> Vec<String> {
    list.iter().map(|name| name.to_string()).collect()
}

fn captures(list: &[Option<&str>]) -> Vec<Option<String>> {
    list.iter().map(|found| found.map(|text| text.to_string())).collect()
}

#[test]
fn gaps_in_earlier_indices_are_not_reused() {
    let existing = names(&["track_001.mp3", "track_003.mp3"]);
    assert_eq!(get_next_file_index("track", "mp3", &existing), Ok(4));
}

#[test]
fn an_empty_directory_starts_at_one() {
    assert_eq!(get_next_file_index("track", "mp3", &Vec::new()), Ok(1));
}

#[test]
fn names_that_do_not_match_are_ignored() {
    let existing = names(&[
        "other_009.mp3",
        "track_09.mp3",
        "track_010.wav",
        "track_011.MP3",
        "track_012.mp3.bak",
        "xtrack_013.mp3",
        "track_014mp3",
        "track-015.mp3",
        "track_0a6.mp3",
        "track_.mp3",
        "track_017.mp3\n",
        "notes.txt",
    ]);
    assert_eq!(get_next_file_index("track", "mp3", &existing), Ok(1));
}

#[test]
fn only_the_largest_index_matters() {
    let existing = names(&["track_007.mp3", "track_120.mp3", "track_0042.mp3", "track_1000.mp3", "track_999.mp3"]);
    assert_eq!(get_next_file_index("track", "mp3", &existing), Ok(1001));
}

#[test]
fn an_index_of_zero_counts_as_none() {
    assert_eq!(get_next_file_index("track", "mp3", &names(&["track_000.mp3"])), Ok(1));
}

#[test]
fn the_stem_is_taken_literally() {
    let existing = names(&["a.b_005.mp3", "aXb_009.mp3"]);
    assert_eq!(get_next_file_index("a.b", "mp3", &existing), Ok(6));
    let existing = names(&["take (1)+[x]_002.m4a", "take 1x_007.m4a"]);
    assert_eq!(get_next_file_index("take (1)+[x]", "m4a", &existing), Ok(3));
}

#[test]
fn the_extension_is_taken_literally() {
    let existing = names(&["track_005.mp3", "track_009.mpx"]);
    assert_eq!(get_next_file_index("track", "mp.", &existing), Ok(1));
    assert_eq!(get_next_file_index("track", "mp3", &existing), Ok(6));
}

#[test]
fn an_index_too_large_for_the_machine_is_ignored() {
    let existing = names(&["track_99999999999999999999999999.mp3", "track_002.mp3"]);
    assert_eq!(get_next_file_index("track", "mp3", &existing), Ok(3));
}

#[test]
fn digits_of_other_scripts_carry_no_index() {
    let existing = names(&["track_\u{661}\u{662}\u{663}.mp3", "track_004.mp3"]);
    assert_eq!(get_next_file_index("track", "mp3", &existing), Ok(5));
}

#[test]
fn the_largest_index_leaves_none_to_allocate() {
    let existing = vec![format!("track_{}.mp3", usize::MAX)];
    assert_eq!(get_next_file_index("track", "mp3", &existing), Err(AllocationError::Exhausted));
    let existing = vec![format!("track_{}.mp3", usize::MAX - 1)];
    assert_eq!(get_next_file_index("track", "mp3", &existing), Ok(usize::MAX));
}

#[test]
fn a_stem_too_long_for_the_engine_is_refused() {
    let stem = "a".repeat(4_000_000);
    assert_eq!(get_next_file_index(&stem, "mp3", &Vec::new()), Err(AllocationError::Pattern));
}

#[test]
fn the_pattern_escapes_stem_and_extension() {
    assert_eq!(index_pattern("track", "mp3"), r"^track_(?P<index>\d{3,})\.mp3$");
    assert_eq!(index_pattern("a.b", "m+"), r"^a\.b_(?P<index>\d{3,})\.m\+$");
    assert_eq!(
        index_pattern(r"\.+*?()|[]{}^$#&-~", ""),
        r"^\\\.\+\*\?\(\)\|\[\]\{\}\^\$\#\&\-\~_(?P<index>\d{3,})\.$"
    );
    assert_eq!(index_pattern("a b%c/d!e\"f", "x"), "^a b%c/d!e\"f_(?P<index>\\d{3,})\\.x$");
}

#[test]
fn indices_are_read_from_digits() {
    assert_eq!(parse_index("001"), Some(1));
    assert_eq!(parse_index("1234"), Some(1234));
    assert_eq!(parse_index("0"), Some(0));
    assert_eq!(parse_index(""), None);
    assert_eq!(parse_index("+12"), None);
    assert_eq!(parse_index("12a"), None);
    assert_eq!(parse_index(" 12"), None);
    assert_eq!(parse_index(&usize::MAX.to_string()), Some(usize::MAX));
    assert_eq!(parse_index("340282366920938463463374607431768211456"), None);
}

#[test]
fn the_next_index_follows_the_largest_capture() {
    assert_eq!(next_index_after(&Vec::new()), Ok(1));
    assert_eq!(next_index_after(&captures(&[None, None])), Ok(1));
    assert_eq!(next_index_after(&captures(&[Some("001"), None, Some("003")])), Ok(4));
    assert_eq!(next_index_after(&captures(&[Some("120"), Some("007"), Some("x99")])), Ok(121));
    assert_eq!(next_index_after(&captures(&[Some("000")])), Ok(1));
    let largest = usize::MAX.to_string();
    assert_eq!(
        next_index_after(&captures(&[Some("005"), Some(largest.as_str())])),
        Err(AllocationError::Exhausted)
    );
}

#[test]
fn a_compiled_pattern_captures_each_index() {
    let pattern = Matcher::new(&index_pattern("track", "mp3")).unwrap();
    let found = capture_indices(&pattern, &names(&["track_001.mp3", "cover.jpg", "track_0420.mp3"]));
    assert_eq!(found, captures(&[Some("001"), None, Some("0420")]));
}

#[test]
fn output_names_carry_at_least_three_digits() {
    assert_eq!(output_file_name("out/track", 4, "mp3"), "out/track_004.mp3");
    assert_eq!(output_file_name("track", 42, "wav"), "track_042.wav");
    assert_eq!(output_file_name("track", 999, "wav"), "track_999.wav");
    assert_eq!(output_file_name("track", 1000, "wav"), "track_1000.wav");
    assert_eq!(output_file_name("track", 0, "wav"), "track_000.wav");
    assert_eq!(output_file_name("", 7, ""), "_007.");
    assert_eq!(
        output_file_name("t", usize::MAX, "x"),
        format!("t_{}.x", usize::MAX)
    );
}

#[test]
fn a_written_name_pushes_the_next_index_past_it() {
    let mut existing = Vec::new();
    for expected in 1..=12 {
        let next = get_next_file_index("a.b (c)", "flac", &existing).unwrap();
        assert_eq!(next, expected);
        existing.push(output_file_name("a.b (c)", next, "flac"));
    }
    existing.push(output_file_name("a.b (c)", 1500, "flac"));
    assert_eq!(get_next_file_index("a.b (c)", "flac", &existing), Ok(1501));
}

#[test]
fn a_compiled_pattern_finds_the_next_index() {
    let pattern = Matcher::new(&index_pattern("track", "mp3")).unwrap();
    assert_eq!(next_index_with(&pattern, &names(&["track_001.mp3", "track_003.mp3"])), Ok(4));
    assert_eq!(next_index_with(&pattern, &Vec::new()), Ok(1));
    let other = Matcher::new(r"^(?P<index>\d+)-take$").unwrap();
    assert_eq!(next_index_with(&other, &names(&["7-take", "12-take", "track_099.mp3"])), Ok(13));
    let nameless = Matcher::new(r"^track_(\d{3,})\.mp3$").unwrap();
    assert_eq!(next_index_with(&nameless, &names(&["track_001.mp3"])), Ok(1));
}

#[test]
fn different_indices_give_different_names() {
    let mut seen = std::collections::HashSet::new();
    for index in (0..1500).chain([9_999, 10_000, 99_999, 100_000, usize::MAX]) {
        assert!(seen.insert(output_file_name("out/track", index, "mp3")));
    }
}
