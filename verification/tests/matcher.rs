use silence_split::matcher::Matcher;

fn text(value: &str) -> Option<String> {
    Some(value.to_string())
}

#[test]
fn a_well_formed_pattern_is_compiled() {
    assert!(Matcher::new(r"^track_(?P<index>\d{3,})\.mp3$").is_some());
    assert!(Matcher::new("").is_some());
    assert!(Matcher::new("plain text").is_some());
}

#[test]
fn a_malformed_pattern_is_refused() {
    assert!(Matcher::new("(").is_none());
    assert!(Matcher::new(r"(?P<index>\d{3,}").is_none());
    assert!(Matcher::new("a{2,1}").is_none());
    assert!(Matcher::new(r"\w{100000}").is_none());
}

#[test]
fn a_named_group_is_captured() {
    let matcher = Matcher::new(r"silence_start: (?P<start>\d+\.\d+)").unwrap();
    assert_eq!(matcher.capture("start", "[x] silence_start: 12.5 more"), text("12.5"));
    assert_eq!(matcher.capture("start", "silence_start: 1.5 silence_start: 2.5"), text("1.5"));
    assert_eq!(matcher.capture("start", "silence_start: twelve"), None);
    assert_eq!(matcher.capture("start", ""), None);
}

#[test]
fn a_group_that_is_not_there_captures_nothing() {
    let matcher = Matcher::new(r"(?P<left>a)|(?P<right>b)").unwrap();
    assert_eq!(matcher.capture("left", "a"), text("a"));
    assert_eq!(matcher.capture("right", "a"), None);
    assert_eq!(matcher.capture("right", "b"), text("b"));
    assert_eq!(matcher.capture("middle", "a"), None);
    assert_eq!(matcher.capture("", "a"), None);
}

#[test]
fn matching_minds_the_case_of_letters() {
    let matcher = Matcher::new(r"(?P<start>a)").unwrap();
    assert_eq!(matcher.capture("start", "A"), None);
    assert_eq!(matcher.capture("start", "a"), text("a"));
}

#[test]
fn an_empty_group_is_captured_as_empty_text() {
    let matcher = Matcher::new(r"x(?P<rest>\d*)").unwrap();
    assert_eq!(matcher.capture("rest", "x"), text(""));
    assert_eq!(matcher.capture("rest", "x42"), text("42"));
}
