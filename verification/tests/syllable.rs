//! Tests of the syllable model: composing, parsing, tones and khin.

use khiin::syllable::compose_key_sequence;
use khiin::syllable::strip_tone_diacritic;
use khiin::KhinMode;
use khiin::Syllable;
use khiin::Tone;
use khiin::ToneMode;

fn syl(raw_input: &str, raw_body: &str, tone: Tone, khin: bool) -> Syllable {
    Syllable {
        raw_input: String::from(raw_input),
        raw_body: String::from(raw_body),
        tone,
        khin,
    }
}

#[test]
fn a_new_syllable_is_empty() {
    let s = Syllable::new();
    assert_eq!(s.raw_input, "");
    assert_eq!(s.raw_body, "");
    assert_eq!(s.tone, Tone::T1);
    assert!(!s.khin);
}

#[test]
fn composing_places_the_diacritic_on_the_nucleus() {
    assert_eq!(syl("a2", "a", Tone::T2, false).compose(KhinMode::Dot), "a\u{0301}");
    assert_eq!(syl("goa5", "goa", Tone::T5, false).compose(KhinMode::Dot), "goa\u{0302}");
    assert_eq!(syl("chhiu7", "chhiu", Tone::T7, false).compose(KhinMode::Dot), "chhiu\u{0304}");
    assert_eq!(syl("mng5", "mng", Tone::T5, false).compose(KhinMode::Dot), "mn\u{0302}g");
    assert_eq!(syl("ah", "ah", Tone::T4, false).compose(KhinMode::Dot), "ah");
    assert_eq!(syl("ah8", "ah", Tone::T8, false).compose(KhinMode::Dot), "a\u{030D}h");
}

#[test]
fn khin_renders_per_mode() {
    let s = syl("--a2", "a", Tone::T2, true);
    assert_eq!(s.compose(KhinMode::Dot), "\u{00B7}a\u{0301}");
    assert_eq!(s.compose(KhinMode::Hyphen), "--a\u{0301}");
    assert_eq!(s.compose(KhinMode::Khinless), "a\u{0301}");
}

#[test]
fn parsing_reads_the_tone_back() {
    let p = Syllable::parse("a\u{0301}", &ToneMode::Numeric);
    assert_eq!(p.raw_body, "a");
    assert_eq!(p.tone, Tone::T2);
    assert!(!p.khin);
    assert_eq!(p.raw_input, "a2");
}

#[test]
fn parsing_reads_a_trailing_digit() {
    let p = Syllable::parse("a2", &ToneMode::Numeric);
    assert_eq!(p.raw_body, "a");
    assert_eq!(p.tone, Tone::T2);
    assert_eq!(p.raw_input, "a2");
    // the checked tone 8 asks for a stop coda; digit 8 without one stays
    // in the body
    let p = Syllable::parse("a8", &ToneMode::Numeric);
    assert_eq!(p.raw_body, "a8");
    assert_eq!(p.tone, Tone::T1);
}

#[test]
fn parsing_infers_tone_from_the_coda() {
    let p = Syllable::parse("ah", &ToneMode::Numeric);
    assert_eq!(p.tone, Tone::T4);
    let p = Syllable::parse("a", &ToneMode::Numeric);
    assert_eq!(p.tone, Tone::T1);
}

#[test]
fn compose_then_parse_round_trips() {
    // spot checks of the round-trip law on well-formed syllables
    let cases = vec![
        syl("a2", "a", Tone::T2, false),
        syl("goa5", "goa", Tone::T5, false),
        syl("ah8", "ah", Tone::T8, false),
        syl("chhiu7", "chhiu", Tone::T7, false),
        syl("mng5", "mng", Tone::T5, false),
        syl("ah", "ah", Tone::T4, false),
        syl("a", "a", Tone::T1, false),
        syl("--a2", "a", Tone::T2, true),
        syl("--ah", "ah", Tone::T4, true),
    ];
    for s in cases {
        for mode in [KhinMode::Dot, KhinMode::Hyphen] {
            if s.khin || mode == KhinMode::Dot {
                let composed = s.compose(mode);
                let p = Syllable::parse(composed.as_str(), &ToneMode::Numeric);
                assert_eq!(p, s);
            }
        }
    }
}

#[test]
fn telex_round_trip_reconstructs_the_letter_key() {
    let keys = khiin::config::default_telex_keys();
    let mode = ToneMode::Telex(keys);
    let s = syl("as", "a", Tone::T2, false);
    let composed = s.compose(KhinMode::Dot);
    assert_eq!(composed, "a\u{0301}");
    let p = Syllable::parse(composed.as_str(), &mode);
    assert_eq!(p, s);
}

#[test]
fn stripping_removes_one_diacritic() {
    let (s, t) = strip_tone_diacritic("cha\u{0304}");
    assert_eq!(s, "cha");
    assert_eq!(t, Tone::T7);
    let (s, t) = strip_tone_diacritic("cha");
    assert_eq!(s, "cha");
    assert_eq!(t, Tone::T1);
}

#[test]
fn key_sequences_compose_part_by_part() {
    assert_eq!(compose_key_sequence("a2", KhinMode::Dot), "a\u{0301}");
    assert_eq!(
        compose_key_sequence("chhia5-thau5", KhinMode::Dot),
        "chhia\u{0302}-tha\u{0302}u"
    );
    assert_eq!(compose_key_sequence("--a2", KhinMode::Dot), "\u{00B7}a\u{0301}");
}
