//! Tests of the buffer elements and their caret mappings.

use khiin::BufferElement;
use khiin::BufferElementEnum;
use khiin::Conversion;
use khiin::KhiinElem;
use khiin::KhinMode;
use khiin::StringElem;

#[test]
fn string_elem_it_works() {
    let el = StringElem::from("ho");
    assert_eq!(el.raw_text(), "ho");
}

#[test]
fn plain_elements_show_one_text_three_ways() {
    let el = BufferElementEnum::StringElem(StringElem::from("abc"));
    assert_eq!(el.raw_text(), "abc");
    assert_eq!(el.composed_text(), "abc");
    assert_eq!(el.display_text(), "abc");
    assert_eq!(el.raw_char_count(), 3);
    assert_eq!(el.display_char_count(), 3);
    assert!(!el.is_converted());
    assert!(el.candidate().is_none());
}

#[test]
fn plain_caret_mappings_are_the_identity() {
    let el = BufferElementEnum::StringElem(StringElem::from("abc"));
    for c in 0..4usize {
        assert_eq!(el.caret_from(el.raw_caret_from(c)), c);
        assert_eq!(el.raw_caret_from(el.caret_from(c)), c);
    }
}

#[test]
fn converted_caret_mappings_invert_on_valid_positions() {
    let conv = Conversion {
        key_sequence: String::from("ia7"),
        lomaji: String::from("iā"),
        hanji: Some(String::from("掖")),
        weight: 0,
    };
    let mut el = BufferElementEnum::KhiinElem(KhiinElem::from_conversion(
        "ia7",
        &conv,
        KhinMode::Dot,
    ));
    el.set_converted(true);
    // raw "ia7" has three characters, the Han display one: the interior
    // collapses, the valid display positions are the two ends
    assert_eq!(el.raw_char_count(), 3);
    assert_eq!(el.display_char_count(), 1);
    for d in [0usize, 1usize] {
        assert_eq!(el.caret_from(el.raw_caret_from(d)), d);
    }
    // the canonical raw positions map back to themselves
    assert_eq!(el.raw_caret_from(el.caret_from(0)), 0);
    assert_eq!(el.raw_caret_from(el.caret_from(3)), 3);
}

#[test]
fn converted_units_carry_their_conversion() {
    let conv = Conversion {
        key_sequence: String::from("a2"),
        lomaji: String::from("á"),
        hanji: Some(String::from("仔")),
        weight: 7,
    };
    let mut el = BufferElementEnum::KhiinElem(KhiinElem::from_conversion(
        "a2",
        &conv,
        KhinMode::Dot,
    ));
    // while composing, the element shows its composed Romanized form
    assert_eq!(el.display_text(), "a\u{0301}");
    el.set_converted(true);
    assert_eq!(el.display_text(), "仔");
    assert_eq!(el.raw_text(), "a2");
    assert_eq!(el.candidate().unwrap().weight, 7);
}

#[test]
fn inserting_and_erasing_edit_by_character() {
    let mut el = StringElem::from("ac");
    el.insert(1, 'b');
    assert_eq!(el.value, "abc");
    el.erase(0);
    assert_eq!(el.value, "bc");
}
