//! End-to-end tests of the engine through the command dispatcher.

use khiin::command::CommandType;
use khiin::command::ConfigRequest;
use khiin::command::EditState;
use khiin::command::KeyEvent;
use khiin::command::ModifierKey;
use khiin::command::Request;
use khiin::command::SegmentStatus;
use khiin::command::SpecialKey;
use khiin::Conversion;
use khiin::Database;
use khiin::Engine;
use khiin::InputMode;
use khiin::KhinMode;
use khiin::OutputMode;

fn conv(key: &str, lomaji: &str, hanji: Option<&str>, weight: u64) -> Conversion {
    Conversion {
        key_sequence: String::from(key),
        lomaji: String::from(lomaji),
        hanji: hanji.map(String::from),
        weight,
    }
}

fn sample_records() -> Vec<Conversion> {
    let mut records = Vec::new();
    let hanji_a = [
        "阿", "亞", "鴉", "鴨", "押", "壓", "啊", "呀", "錒", "腌", "芽", "衙",
    ];
    let mut w = 1200u64;
    for h in hanji_a.iter() {
        records.push(conv("a", "a", Some(h), w));
        w -= 10;
    }
    records.push(conv("a2", "á", Some("仔"), 800));
    records.push(conv("ia7", "iā", Some("掖"), 700));
    records.push(conv("cha7", "chā", Some("詐"), 600));
    records
}

fn get_engine() -> Option<Engine> {
    Engine::new(Database::new(sample_records()))
}

fn mock_send_key_request(c: char) -> Request {
    Request {
        command: CommandType::SendKey,
        key_event: KeyEvent {
            key_code: c as i32,
            special_key: SpecialKey::NoKey,
            modifier_keys: Vec::new(),
        },
        config: ConfigRequest::new(),
    }
}

fn special_key_request(k: SpecialKey, shift: bool) -> Request {
    let mut modifier_keys = Vec::new();
    if shift {
        modifier_keys.push(ModifierKey::Shift);
    }
    Request {
        command: CommandType::SendKey,
        key_event: KeyEvent { key_code: 0, special_key: k, modifier_keys },
        config: ConfigRequest::new(),
    }
}

fn set_config_request(
    input: InputMode,
    output: OutputMode,
    khin: KhinMode,
    telex: bool,
) -> Request {
    Request {
        command: CommandType::SetConfig,
        key_event: KeyEvent {
            key_code: 0,
            special_key: SpecialKey::NoKey,
            modifier_keys: Vec::new(),
        },
        config: ConfigRequest {
            input_mode: Some(input),
            output_mode: Some(output),
            khin_mode: Some(khin),
            telex_enabled: Some(telex),
        },
    }
}

#[test]
fn engine_it_works() {
    let engine = get_engine();
    assert!(engine.is_some());
}

#[test]
fn it_handles_send_key_commands() {
    let mut engine = get_engine().unwrap();
    let req = mock_send_key_request('a');
    let res = engine.on_send_key(&req);
    let s = &res.preedit.segments;
    assert_eq!(s.len(), 1);
    assert_eq!(s[0].status, SegmentStatus::Composing);
    assert_eq!(s[0].value, "a".to_string());
}

#[test]
fn it_inserts_multiple_characters() {
    let mut engine = get_engine().unwrap();
    engine.on_send_key(&mock_send_key_request('a'));
    engine.on_send_key(&mock_send_key_request('a'));
    engine.on_send_key(&mock_send_key_request('a'));
    engine.on_send_key(&mock_send_key_request('a'));
    engine.on_send_key(&mock_send_key_request('a'));
    engine.on_send_key(&mock_send_key_request('a'));
    let res = engine.on_send_key(&mock_send_key_request('a'));
    assert_eq!(res.preedit.segments.len(), 1);
}

#[test]
fn single_syllable_no_tone() {
    let mut engine = get_engine().unwrap();
    engine.send_command(&set_config_request(
        InputMode::Classic,
        OutputMode::Lomaji,
        KhinMode::Dot,
        false,
    ));
    let res = engine.send_command(&mock_send_key_request('a'));
    assert_eq!(res.preedit.segments.len(), 1);
    assert_eq!(res.preedit.segments[0].value, "a");
    assert_eq!(res.preedit.segments[0].status, SegmentStatus::Composing);
    assert_eq!(res.preedit.caret, 1);
    assert!(!res.candidate_list.candidates.is_empty());
}

#[test]
fn toned_syllable() {
    let mut engine = get_engine().unwrap();
    engine.send_command(&set_config_request(
        InputMode::Classic,
        OutputMode::Lomaji,
        KhinMode::Dot,
        false,
    ));
    engine.send_command(&mock_send_key_request('a'));
    let res = engine.send_command(&mock_send_key_request('2'));
    assert_eq!(res.preedit.segments.len(), 1);
    assert_eq!(res.preedit.segments[0].value, "a\u{0301}");
    assert_eq!(engine.buffer_mgr.raw, "a2");
    // the candidates include the top ranked conversion for "a2"
    assert!(res
        .candidate_list
        .candidates
        .iter()
        .any(|c| c.value == "仔"));
}

#[test]
fn selection_by_digit_classic() {
    let mut engine = get_engine().unwrap();
    engine.send_command(&set_config_request(
        InputMode::Classic,
        OutputMode::Lomaji,
        KhinMode::Dot,
        false,
    ));
    let res = engine.send_command(&mock_send_key_request('a'));
    let first = res.candidate_list.candidates[0].value.clone();
    engine.send_command(&special_key_request(SpecialKey::Space, false));
    let res = engine.send_command(&mock_send_key_request('1'));
    assert!(res.committed);
    assert_eq!(res.committed_text, first);
    assert_eq!(res.edit_state, EditState::Empty);
    assert_eq!(res.preedit.segments.len(), 0);
}

#[test]
fn tab_paging() {
    let mut engine = get_engine().unwrap();
    engine.send_command(&set_config_request(
        InputMode::Classic,
        OutputMode::Lomaji,
        KhinMode::Dot,
        false,
    ));
    let res = engine.send_command(&mock_send_key_request('a'));
    assert!(res.candidate_list.candidates.len() >= 10);
    assert_eq!(res.candidate_list.page, 0);
    let res = engine.send_command(&special_key_request(SpecialKey::Tab, false));
    assert_eq!(res.candidate_list.page, 1);
    let res = engine.send_command(&special_key_request(SpecialKey::Tab, true));
    assert_eq!(res.candidate_list.page, 0);
}

#[test]
fn paging_holds_the_focused_candidate() {
    let mut engine = get_engine().unwrap();
    engine.send_command(&set_config_request(
        InputMode::Classic,
        OutputMode::Lomaji,
        KhinMode::Dot,
        false,
    ));
    engine.send_command(&mock_send_key_request('a'));
    let res = engine.send_command(&special_key_request(SpecialKey::Tab, false));
    let n = res.candidate_list.candidates.len();
    let f = res.candidate_list.focused.unwrap();
    // the page starts where the focused candidate's page starts, and the
    // displayed 1-based page number stays within the page count
    assert_eq!(res.candidate_list.page * 9, (f / 9) * 9);
    assert!(1 <= res.candidate_list.page + 1);
    assert!(res.candidate_list.page + 1 <= (n + 8) / 9);
}

#[test]
fn mode_switch_mid_composition() {
    let mut engine = get_engine().unwrap();
    engine.send_command(&mock_send_key_request('a'));
    let mut req = Request {
        command: CommandType::SwitchInputMode,
        key_event: KeyEvent {
            key_code: 0,
            special_key: SpecialKey::NoKey,
            modifier_keys: Vec::new(),
        },
        config: ConfigRequest::new(),
    };
    req.config.input_mode = Some(InputMode::Manual);
    let res = engine.send_command(&req);
    assert_eq!(res.preedit.segments.len(), 0);
    assert_eq!(res.edit_state, EditState::Empty);
    assert_eq!(res.candidate_list.candidates.len(), 0);
    assert_eq!(engine.buffer_mgr.raw, "");
}

#[test]
fn switching_output_mode_resets_the_composition() {
    let mut engine = get_engine().unwrap();
    engine.send_command(&mock_send_key_request('a'));
    let mut req = Request {
        command: CommandType::SwitchOutputMode,
        key_event: KeyEvent {
            key_code: 0,
            special_key: SpecialKey::NoKey,
            modifier_keys: Vec::new(),
        },
        config: ConfigRequest::new(),
    };
    req.config.output_mode = Some(OutputMode::Hanji);
    let res = engine.send_command(&req);
    assert_eq!(res.preedit.segments.len(), 0);
    assert_eq!(res.edit_state, EditState::Empty);
    assert_eq!(engine.buffer_mgr.raw, "");
    assert_eq!(engine.inner.conf.output_mode, OutputMode::Hanji);
}

#[test]
fn commit_all_via_enter_continuous() {
    let mut engine = get_engine().unwrap();
    // continuous mode is the default
    engine.send_command(&mock_send_key_request('c'));
    engine.send_command(&mock_send_key_request('h'));
    engine.send_command(&mock_send_key_request('a'));
    let res = engine.send_command(&mock_send_key_request('7'));
    let display: String = res
        .preedit
        .segments
        .iter()
        .map(|s| s.value.clone())
        .collect::<Vec<String>>()
        .join("");
    assert_eq!(display, "cha\u{0304}");
    let res = engine.send_command(&special_key_request(SpecialKey::Enter, false));
    assert!(res.committed);
    assert_eq!(res.committed_text, "cha\u{0304}");
    assert_eq!(res.edit_state, EditState::Empty);
}

#[test]
fn keystrokes_then_reset_return_to_the_initial_state() {
    let mut engine = get_engine().unwrap();
    engine.send_command(&mock_send_key_request('a'));
    engine.send_command(&mock_send_key_request('2'));
    let reset = Request {
        command: CommandType::Reset,
        key_event: KeyEvent {
            key_code: 0,
            special_key: SpecialKey::NoKey,
            modifier_keys: Vec::new(),
        },
        config: ConfigRequest::new(),
    };
    engine.send_command(&reset);
    // the observable state equals a fresh engine's
    let probe = special_key_request(SpecialKey::Esc, false);
    let res = engine.send_command(&probe);
    let mut fresh = get_engine().unwrap();
    let fres = fresh.send_command(&probe);
    assert_eq!(res.preedit.segments.len(), fres.preedit.segments.len());
    assert_eq!(res.preedit.caret, fres.preedit.caret);
    assert_eq!(
        res.candidate_list.candidates.len(),
        fres.candidate_list.candidates.len()
    );
    assert_eq!(res.edit_state, fres.edit_state);
    assert_eq!(res.edit_state, EditState::Empty);
}

#[test]
fn raw_text_matches_the_tracked_buffer() {
    let mut engine = get_engine().unwrap();
    engine.send_command(&mock_send_key_request('a'));
    engine.send_command(&mock_send_key_request('2'));
    assert_eq!(engine.buffer_mgr.composition.raw_text(), engine.buffer_mgr.raw);
    engine.send_command(&special_key_request(SpecialKey::Backspace, false));
    assert_eq!(engine.buffer_mgr.composition.raw_text(), engine.buffer_mgr.raw);
    assert_eq!(engine.buffer_mgr.raw, "a");
}

#[test]
fn backspace_pops_one_raw_character() {
    let mut engine = get_engine().unwrap();
    engine.send_command(&mock_send_key_request('a'));
    engine.send_command(&mock_send_key_request('2'));
    engine.send_command(&special_key_request(SpecialKey::Backspace, false));
    assert_eq!(engine.buffer_mgr.raw, "a");
    let res = engine.send_command(&special_key_request(SpecialKey::Backspace, false));
    assert_eq!(engine.buffer_mgr.raw, "");
    assert_eq!(res.edit_state, EditState::Empty);
}

#[test]
fn unknown_commands_answer_with_a_failure_marker() {
    let mut engine = get_engine().unwrap();
    engine.send_command(&mock_send_key_request('a'));
    let raw_before = engine.buffer_mgr.raw.clone();
    for kind in [
        CommandType::Unspecified,
        CommandType::Revert,
        CommandType::SelectCandidate,
        CommandType::FocusCandidate,
        CommandType::PlaceCursor,
        CommandType::Disable,
        CommandType::Enable,
        CommandType::TestSendKey,
        CommandType::ListEmojis,
        CommandType::ResetUserData,
        CommandType::Shutdown,
    ] {
        let req = Request {
            command: kind,
            key_event: KeyEvent {
                key_code: 0,
                special_key: SpecialKey::NoKey,
                modifier_keys: Vec::new(),
            },
            config: ConfigRequest::new(),
        };
        let res = engine.send_command(&req);
        assert!(res.error);
        assert_eq!(engine.buffer_mgr.raw, raw_before);
    }
}

#[test]
fn the_engine_manager_wraps_key_events() {
    let mgr = khiin::EngineMgr::new(Database::new(sample_records()));
    let mut mgr = mgr.unwrap();
    let ev = KeyEvent { key_code: 97, special_key: SpecialKey::NoKey, modifier_keys: Vec::new() };
    assert!(!mgr.on_test_key(&ev));
    let req = mgr.on_key(ev);
    assert_eq!(req.command, CommandType::SendKey);
    assert_eq!(req.key_event.key_code, 97);
    mgr.test();
}

#[test]
fn manual_mode_composes_with_telex_keys() {
    let mut engine = get_engine().unwrap();
    engine.send_command(&set_config_request(
        InputMode::Manual,
        OutputMode::Lomaji,
        KhinMode::Dot,
        true,
    ));
    engine.send_command(&mock_send_key_request('a'));
    assert_eq!(engine.buffer_mgr.raw, "a");
    // 's' keys tone 2 once a syllable is under composition: "a" has no
    // diacritic yet, so the first 's' joins the body
    engine.send_command(&mock_send_key_request('s'));
    assert_eq!(engine.buffer_mgr.raw, "as");
}
