//! Tests of the converter over the dictionary and the conversion store.

use khiin::converter::candidates_for_splittable;
use khiin::converter::convert_all;
use khiin::converter::convert_to_telex;
use khiin::converter::get_candidates;
use khiin::elem::BufferElement;
use khiin::Conversion;
use khiin::Database;
use khiin::Engine;

fn conv(key: &str, lomaji: &str, hanji: Option<&str>, weight: u64) -> Conversion {
    Conversion {
        key_sequence: String::from(key),
        lomaji: String::from(lomaji),
        hanji: hanji.map(String::from),
        weight,
    }
}

fn test_harness() -> Engine {
    let records = vec![
        conv("a", "a", Some("阿"), 1000),
        conv("a2", "á", Some("仔"), 900),
        conv("ia7", "iā", Some("掖"), 800),
        conv("ia7", "iā", None, 790),
        conv("b", "b", None, 700),
        conv("ab", "ab", Some("鴨"), 600),
    ];
    Engine::new(Database::new(records)).unwrap()
}

#[test]
fn it_splits_and_converts_words() {
    let engine = test_harness();
    let comp = convert_all(&engine.inner, "abc");
    assert_eq!(comp.raw_text(), "abc");
}

#[test]
fn it_gets_candidates() {
    let engine = test_harness();
    let cands = get_candidates(&engine.inner, "a");
    assert!(!cands.is_empty());
}

#[test]
fn it_contains_ia7() {
    let engine = test_harness();
    let result = candidates_for_splittable(&engine.inner, "ia7");
    assert!(result.iter().any(|c| c.display_text() == "掖"));
}

#[test]
fn conversion_covers_the_whole_raw_text() {
    let engine = test_harness();
    for raw in ["a", "ab", "abab", "a2", "x!y-", "ia7ia7"] {
        let comp = convert_all(&engine.inner, raw);
        assert_eq!(comp.raw_text(), raw);
    }
}

#[test]
fn greedy_segmentation_prefers_the_longest_word() {
    let engine = test_harness();
    // "ab" splits as the single word "ab", not as "a" then "b"
    let comp = convert_all(&engine.inner, "ab");
    assert_eq!(comp.elems.len(), 1);
    assert_eq!(comp.elems[0].raw_text(), "ab");
}

#[test]
fn candidates_keep_store_order() {
    let engine = test_harness();
    let result = candidates_for_splittable(&engine.inner, "ia7");
    assert_eq!(result.len(), 2);
    assert_eq!(result[0].display_text(), "掖");
    assert_eq!(result[1].display_text(), "iā");
}

#[test]
fn infeasible_prefix_words_contribute_no_candidates() {
    let engine = test_harness();
    // "a" prefixes "a2", but its remainder "2" cannot be tiled
    let result = candidates_for_splittable(&engine.inner, "a2");
    assert_eq!(result.len(), 1);
    assert_eq!(result[0].display_text(), "仔");
}

#[test]
fn plaintext_sections_give_no_candidates() {
    let engine = test_harness();
    let cands = get_candidates(&engine.inner, "xyz");
    assert!(cands.is_empty());
    let cands = get_candidates(&engine.inner, "!!");
    assert!(cands.is_empty());
}

#[test]
fn telex_conversion_replaces_the_tone() {
    let engine = test_harness();
    // "á" already carries tone 2; the tone-7 key rewrites it
    let keys = engine.inner.conf.telex_keys();
    let buf = convert_to_telex(&engine.inner, "a\u{0301}", keys.t7);
    assert_eq!(buf.display_text(), "a\u{0304}");
}

#[test]
fn the_tone_eight_key_demands_a_stop_coda() {
    let engine = test_harness();
    let keys = engine.inner.conf.telex_keys();
    // with a stop coda the tone-8 key writes tone 8
    let buf = convert_to_telex(&engine.inner, "a\u{0301}h", keys.t8);
    assert_eq!(buf.display_text(), "a\u{030D}h");
    // without one it keeps its other meaning: a plain letter
    let buf = convert_to_telex(&engine.inner, "a\u{0301}", keys.t8);
    assert_eq!(buf.display_text(), "aw");
}

#[test]
fn telex_conversion_appends_plain_letters() {
    let engine = test_harness();
    let buf = convert_to_telex(&engine.inner, "", 'g');
    assert_eq!(buf.display_text(), "g");
}
