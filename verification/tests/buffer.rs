//! Tests of the composition buffer, the preedit segments, and the action
//! candidate machinery.

use khiin::buffer_mgr::BufferMgr;
use khiin::command::CommandType;
use khiin::command::ConfigRequest;
use khiin::command::EditState;
use khiin::command::KeyEvent;
use khiin::command::Request;
use khiin::command::SegmentStatus;
use khiin::command::SpecialKey;
use khiin::elem::ActionElem;
use khiin::elem::Spacer;
use khiin::Buffer;
use khiin::BufferElement;
use khiin::BufferElementEnum;
use khiin::Conversion;
use khiin::Database;
use khiin::Engine;
use khiin::InputMode;
use khiin::KhinMode;
use khiin::StringElem;

fn conv(key: &str, lomaji: &str, hanji: Option<&str>) -> Conversion {
    Conversion {
        key_sequence: String::from(key),
        lomaji: String::from(lomaji),
        hanji: hanji.map(String::from),
        weight: 0,
    }
}

#[test]
fn spacers_show_as_unmarked_gaps() {
    let mut comp = Buffer::new();
    comp.push(BufferElementEnum::StringElem(StringElem::from("ab")));
    comp.push(BufferElementEnum::Spacer(Spacer {}));
    comp.push(BufferElementEnum::StringElem(StringElem::from("cd")));
    comp.set_converted(true);
    assert_eq!(comp.raw_text(), "abcd");
    assert_eq!(comp.display_text(), "ab cd");
    let preedit = comp.build_preedit(None);
    assert_eq!(preedit.segments.len(), 3);
    assert_eq!(preedit.segments[0].status, SegmentStatus::Converted);
    assert_eq!(preedit.segments[1].status, SegmentStatus::Unmarked);
    assert_eq!(preedit.segments[1].value, " ");
    assert_eq!(preedit.segments[2].status, SegmentStatus::Converted);
}

#[test]
fn adjacent_segments_of_one_status_merge() {
    let mut comp = Buffer::new();
    comp.push(BufferElementEnum::StringElem(StringElem::from("ab")));
    comp.push(BufferElementEnum::StringElem(StringElem::from("cd")));
    let preedit = comp.build_preedit(None);
    assert_eq!(preedit.segments.len(), 1);
    assert_eq!(preedit.segments[0].value, "abcd");
    assert_eq!(preedit.caret, 4);
}

fn action_candidate(label: &str, expansion: Vec<Conversion>) -> Buffer {
    let mut b = Buffer::new();
    b.push(BufferElementEnum::ActionElem(ActionElem {
        text: String::from(label),
        expansion,
        selected: false,
    }));
    b
}

#[test]
fn action_candidates_expand_instead_of_committing() {
    let records = vec![conv("a", "a", Some("阿"))];
    let mut engine = Engine::new(Database::new(records)).unwrap();
    let mut cfg = Request {
        command: CommandType::SwitchInputMode,
        key_event: KeyEvent::new(),
        config: ConfigRequest::new(),
    };
    cfg.config.input_mode = Some(InputMode::Classic);
    engine.send_command(&cfg);

    // the store may hand out an action pseudo-candidate; activating it
    // replaces the list with its expansion
    let expansion = vec![conv("x1", "x", Some("甲")), conv("x2", "x", Some("乙"))];
    engine.buffer_mgr.candidates = vec![action_candidate("...", expansion)];
    engine.buffer_mgr.focused = Some(0);
    engine.buffer_mgr.page = 0;
    engine.buffer_mgr.edit_state = EditState::Selecting;
    assert!(engine.buffer_mgr.focused_candidate_is_action());

    let req = Request {
        command: CommandType::SendKey,
        key_event: KeyEvent {
            key_code: 0,
            special_key: SpecialKey::Enter,
            modifier_keys: Vec::new(),
        },
        config: ConfigRequest::new(),
    };
    let res = engine.send_command(&req);
    assert!(!res.committed);
    assert_eq!(res.candidate_list.candidates.len(), 2);
    assert_eq!(res.candidate_list.candidates[0].value, "甲");
    assert_eq!(res.candidate_list.candidates[1].value, "乙");
    assert!(res.candidate_list.focused.is_none());
    assert_eq!(res.candidate_list.page, 0);
}

#[test]
fn space_on_an_empty_buffer_changes_nothing() {
    let records = vec![conv("a", "a", Some("阿"))];
    let mut engine = Engine::new(Database::new(records)).unwrap();
    let mut cfg = Request {
        command: CommandType::SwitchInputMode,
        key_event: KeyEvent::new(),
        config: ConfigRequest::new(),
    };
    cfg.config.input_mode = Some(InputMode::Classic);
    engine.send_command(&cfg);
    let req = Request {
        command: CommandType::SendKey,
        key_event: KeyEvent {
            key_code: 0,
            special_key: SpecialKey::Space,
            modifier_keys: Vec::new(),
        },
        config: ConfigRequest::new(),
    };
    let res = engine.send_command(&req);
    assert!(!res.committed);
    assert_eq!(res.edit_state, EditState::Empty);
    assert_eq!(res.preedit.segments.len(), 0);
}

#[test]
fn a_fresh_manager_is_empty() {
    let bm = BufferMgr::new();
    assert_eq!(bm.raw, "");
    assert_eq!(bm.edit_state, EditState::Empty);
    assert!(bm.candidates.is_empty());
    assert!(bm.focused.is_none());
}

#[test]
fn a_khin_key_sequence_composes_with_its_marker() {
    let record = conv("--a", "a", Some("阿"));
    let elem = khiin::KhiinElem::from_conversion("--a", &record, KhinMode::Dot);
    assert_eq!(elem.raw, "--a");
    assert_eq!(elem.composed, "\u{00B7}a");
}
