//! Tests of the terminal rendering helpers, the geometry, the host
//! configuration stubs and the error messages.

use khiin::command::Candidate;
use khiin::command::CandidateList;
use khiin::command::Preedit;
use khiin::command::Segment;
use khiin::command::SegmentStatus;
use khiin::display::get_candidate_page;
use khiin::display::page_range;
use khiin::display::render_preedit;
use khiin::geometry::Point;
use khiin::geometry::Rect;
use khiin::host::get_known_file;
use khiin::host::KhiinFile;
use khiin::KhiinError;

#[test]
fn page_range_rounds_down_to_the_page_start() {
    assert_eq!(page_range(20, 9, 10), (9, 18));
    assert_eq!(page_range(20, 9, 0), (0, 9));
    assert_eq!(page_range(11, 9, 10), (9, 11));
}

fn cand_list(values: &[&str], focused: Option<usize>, page: usize) -> CandidateList {
    let mut candidates = Vec::new();
    for (i, v) in values.iter().enumerate() {
        candidates.push(Candidate { id: i, value: String::from(*v) });
    }
    CandidateList { candidates, focused, page }
}

#[test]
fn the_candidate_page_numbers_and_stars_its_lines() {
    let cl = cand_list(&["x", "y", "z"], Some(1), 0);
    let lines = get_candidate_page(&cl);
    assert_eq!(lines, vec![" 1. x".to_string(), "*2. y".to_string(), " 3. z".to_string()]);
}

#[test]
fn the_candidate_page_follows_the_focus() {
    let values: Vec<String> = (0..12).map(|i| format!("c{}", i)).collect();
    let refs: Vec<&str> = values.iter().map(|s| s.as_str()).collect();
    let cl = cand_list(&refs, Some(10), 1);
    let lines = get_candidate_page(&cl);
    assert_eq!(lines.len(), 3);
    assert_eq!(lines[0], " 1. c9");
    assert_eq!(lines[1], "*2. c10");
    assert_eq!(lines[2], " 3. c11");
}

#[test]
fn the_preedit_renders_text_attributes_and_caret() {
    let preedit = Preedit {
        segments: vec![
            Segment { value: String::from("ab"), status: SegmentStatus::Converted },
            Segment { value: String::from("c"), status: SegmentStatus::Composing },
        ],
        caret: 3,
        focused_caret: 3,
    };
    let (text, attrs, caret) = render_preedit(&preedit);
    assert_eq!(text, "abc");
    assert_eq!(attrs, "\u{2500}\u{2500}\u{2504}");
    assert_eq!(caret, 3);
}

#[test]
fn wide_characters_widen_the_attribute_row() {
    let preedit = Preedit {
        segments: vec![Segment { value: String::from("掖"), status: SegmentStatus::Focused }],
        caret: 1,
        focused_caret: 1,
    };
    let (text, attrs, caret) = render_preedit(&preedit);
    assert_eq!(text, "掖");
    assert_eq!(attrs, "\u{2501}\u{2501}");
    assert_eq!(caret, 2);
}

#[test]
fn rectangles_measure_their_edges_and_center() {
    let r = Rect::new(Point { x: 10, y: 20 }, 30, 40);
    assert_eq!(r.w(), 10);
    assert_eq!(r.e(), 40);
    assert_eq!(r.n(), 20);
    assert_eq!(r.s(), 60);
    assert_eq!(r.center(), Point { x: 25, y: 40 });
    assert_eq!(r.size().w, 30);
    assert_eq!(r.o(), Point { x: 10, y: 20 });
}

#[test]
fn known_files_resolve_to_the_empty_path() {
    assert_eq!(get_known_file(KhiinFile::Database, None, None), "");
    assert_eq!(KhiinFile::Database.reg_key(), "khiin_db");
    assert_eq!(KhiinFile::Config.reg_key(), "config_toml");
    assert_eq!(KhiinFile::SettingsApp.reg_key(), "settings_exe");
    assert_eq!(KhiinFile::UserDb.reg_key(), "user_db");
}

#[test]
fn errors_describe_themselves() {
    assert_eq!(KhiinError::NotSegmentable.message(), "not segmentable");
    assert_eq!(KhiinError::EngineNotReady.message(), "engine not ready");
}
