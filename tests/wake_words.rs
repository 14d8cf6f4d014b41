use wake_trigger::{
    contains_wake_word, find_chars, is_just_wake_word, normalize, trim_chars, WakeWordSet,
};

fn chars(s: &str) -> Vec<char> {
    s.chars().collect()
}

#[test]
fn phrase_with_trailing_words_is_reported_lower_cased() {
    let words = ["hey iris"];
    assert_eq!(
        contains_wake_word("  Hey Iris   Turn OFF the lights ", &words),
        Some("hey iris turn off the lights".to_string())
    );
}

#[test]
fn bare_phrase_is_reported_alone() {
    assert_eq!(contains_wake_word("HEY IRIS", &["hey iris"]), Some("hey iris".to_string()));
    assert_eq!(contains_wake_word("well hey iris", &["hey iris"]), Some("hey iris".to_string()));
}

#[test]
fn no_phrase_or_blank_transcript_reports_nothing() {
    assert_eq!(contains_wake_word("hello there", &["hey iris"]), None);
    assert_eq!(contains_wake_word("   ", &["hey iris"]), None);
    assert_eq!(contains_wake_word("", &[""]), None);
    assert_eq!(contains_wake_word("hey iris", &[]), None);
}

#[test]
fn first_configured_phrase_wins() {
    let words = ["iris", "hey iris"];
    assert_eq!(contains_wake_word("hey iris lights", &words), Some("iris lights".to_string()));
    let words = ["hey iris", "iris"];
    assert_eq!(contains_wake_word("hey iris lights", &words), Some("hey iris lights".to_string()));
}

#[test]
fn configured_phrases_match_case_insensitively() {
    assert_eq!(contains_wake_word("hey iris go", &["Hey IRIS"]), Some("hey iris go".to_string()));
    assert!(is_just_wake_word("hey iris", &["HEY Iris"]));
}

#[test]
fn exact_phrase_check() {
    assert!(is_just_wake_word("  Hey Iris\t", &["hey iris"]));
    assert!(is_just_wake_word("ok computer", &["hey iris", "ok computer"]));
    assert!(!is_just_wake_word("hey iris now", &["hey iris"]));
    assert!(!is_just_wake_word("hey", &["hey iris"]));
}

#[test]
fn normalize_trims_then_lowers() {
    assert_eq!(normalize("\u{3000} HeLLo Wörld \n"), chars("hello wörld"));
    assert_eq!(normalize("ÀÉÎ"), chars("àéî"));
}

#[test]
fn trim_removes_unicode_whitespace() {
    assert_eq!(trim_chars(&chars("\u{a0}\u{2003} a b \u{85}")), chars("a b"));
    assert_eq!(trim_chars(&chars(" \t ")), Vec::<char>::new());
}

#[test]
fn find_reports_first_position() {
    assert_eq!(find_chars(&chars("abcabc"), &chars("bc")), Some(1));
    assert_eq!(find_chars(&chars("abc"), &chars("")), Some(0));
    assert_eq!(find_chars(&chars("ab"), &chars("abc")), None);
    assert_eq!(find_chars(&chars("abc"), &chars("cb")), None);
}

#[test]
fn find_wake_on_normalized_text() {
    let set = WakeWordSet::from_phrases(vec![chars("hey iris")]);
    assert_eq!(set.find_wake(&chars("hey iris  dim the lights")), Some((0, chars("dim the lights"))));
    assert_eq!(set.find_wake(&chars("hey iris")), Some((0, Vec::new())));
    assert_eq!(set.find_wake(&chars("hey irs")), None);
    assert!(set.is_exact(&chars("hey iris")));
    assert!(!set.is_exact(&chars("Hey iris")));
}

#[test]
fn set_lowers_its_phrases() {
    let set = WakeWordSet::new(&["Hey IRIS", "OK"]);
    assert_eq!(set.len(), 2);
    assert_eq!(set.phrase(0), chars("hey iris"));
    assert_eq!(set.phrase(1), chars("ok"));
}
