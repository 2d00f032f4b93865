//! Tests of the dictionary facade and the input parser.

use khiin::config::ToneMode;
use khiin::parser::parse_longest_from_start;
use khiin::parser::parse_whole_input;
use khiin::parser::SectionKind;
use khiin::Conversion;
use khiin::Database;
use khiin::Dictionary;
use khiin::KhiinError;

fn conv(key: &str) -> Conversion {
    Conversion {
        key_sequence: String::from(key),
        lomaji: String::from(key),
        hanji: None,
        weight: 0,
    }
}

fn dict_of(words: &[&str]) -> Dictionary {
    let mut records = Vec::new();
    for w in words {
        records.push(conv(w));
    }
    Dictionary::new(&Database::new(records), ToneMode::Numeric)
}

#[test]
fn the_empty_string_is_segmentable() {
    let dict = dict_of(&["a", "b"]);
    assert!(dict.can_segment(""));
}

#[test]
fn segmentable_strings_open_with_a_dictionary_word() {
    let dict = dict_of(&["a", "ab", "b"]);
    assert!(dict.can_segment("ab"));
    assert!(dict.can_segment("abb"));
    assert!(dict.can_segment("ba"));
    assert!(!dict.can_segment("ac"));
    assert!(!dict.can_segment("c"));
}

#[test]
fn segmentation_tiles_the_section() {
    let dict = dict_of(&["a", "ab", "b"]);
    let parts = dict.segment("abb").unwrap();
    assert_eq!(parts.join(""), "abb");
}

#[test]
fn segmentation_takes_the_longest_word_first() {
    let dict = dict_of(&["a", "ab", "b"]);
    let parts = dict.segment("ab").unwrap();
    assert_eq!(parts, vec!["ab".to_string()]);
    let parts = dict.segment("abb").unwrap();
    assert_eq!(parts, vec!["ab".to_string(), "b".to_string()]);
}

#[test]
fn unsegmentable_sections_are_refused() {
    let dict = dict_of(&["a"]);
    let r = dict.segment("ax");
    assert_eq!(r.unwrap_err(), KhiinError::NotSegmentable);
}

#[test]
fn prefix_lookup_returns_every_matching_word() {
    let dict = dict_of(&["a", "ab", "abc", "b"]);
    let words = dict.all_words_from_start("abx");
    assert_eq!(words, vec!["a".to_string(), "ab".to_string()]);
}

#[test]
fn the_word_list_deduplicates_store_keys() {
    let mut records = Vec::new();
    records.push(conv("a"));
    records.push(conv("a"));
    records.push(conv("b"));
    let dict = Dictionary::new(&Database::new(records), ToneMode::Numeric);
    assert_eq!(dict.words, vec!["a".to_string(), "b".to_string()]);
}

#[test]
fn sections_classify_by_their_first_character() {
    let dict = dict_of(&["a", "ab"]);
    let (kind, len) = parse_longest_from_start(&dict, "ab!");
    assert_eq!(kind, SectionKind::Splittable);
    assert_eq!(len, 2);
    let (kind, len) = parse_longest_from_start(&dict, "--ab");
    assert_eq!(kind, SectionKind::Hyphens);
    assert_eq!(len, 2);
    let (kind, len) = parse_longest_from_start(&dict, "!?a");
    assert_eq!(kind, SectionKind::Punct);
    assert_eq!(len, 2);
    let (kind, len) = parse_longest_from_start(&dict, "xy");
    assert_eq!(kind, SectionKind::Plaintext);
    assert_eq!(len, 2);
}

#[test]
fn the_partition_covers_the_whole_input() {
    let dict = dict_of(&["a", "ab"]);
    let sections = parse_whole_input(&dict, "ab--a!xy");
    let joined: String = sections.iter().map(|s| s.1.clone()).collect::<Vec<_>>().join("");
    assert_eq!(joined, "ab--a!xy");
    assert_eq!(sections[0], (SectionKind::Splittable, "ab".to_string()));
    assert_eq!(sections[1], (SectionKind::Hyphens, "--".to_string()));
    assert_eq!(sections[2], (SectionKind::Splittable, "a".to_string()));
    assert_eq!(sections[3], (SectionKind::Punct, "!".to_string()));
    assert_eq!(sections[4], (SectionKind::Plaintext, "xy".to_string()));
}
