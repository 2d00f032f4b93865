//! The request/response boundary: every keystroke or mode command arrives
//! as a typed request, and the engine answers with the current preedit,
//! candidate list, edit state and any committed text.

use vstd::prelude::*;

use crate::config::InputMode;
use crate::config::KhinMode;
use crate::config::OutputMode;

verus! {

/// What a request asks the engine to do.
#[derive(Debug, Clone, Copy, PartialEq, Eq, Structural)]
pub enum CommandType {
    Unspecified,
    SendKey,
    Revert,
    Reset,
    Commit,
    SelectCandidate,
    FocusCandidate,
    SwitchInputMode,
    SwitchOutputMode,
    PlaceCursor,
    Disable,
    Enable,
    SetConfig,
    TestSendKey,
    ListEmojis,
    ResetUserData,
    Shutdown,
}

/// The special (non-printing) key of a key event, if any.
#[derive(Debug, Clone, Copy, PartialEq, Eq, Structural)]
pub enum SpecialKey {
    NoKey,
    Space,
    Enter,
    Esc,
    Backspace,
    Tab,
    Left,
    Right,
    Up,
    Down,
    PgUp,
    PgDn,
    Home,
    End,
    Del,
}

/// A modifier held during a key event. Shift reverses the direction of
/// Space and Tab.
#[derive(Debug, Clone, Copy, PartialEq, Eq, Structural)]
pub enum ModifierKey {
    Shift,
    Ctrl,
    Alt,
}

/// One keystroke: a code point for printing keys, a special key otherwise,
/// and the modifiers held.
#[derive(Debug, PartialEq, Eq)]
pub struct KeyEvent {
    pub key_code: i32,
    pub special_key: SpecialKey,
    pub modifier_keys: Vec<ModifierKey>,
}

impl KeyEvent {
    /// A key event with no key and no modifiers.
    pub fn new() -> (r: KeyEvent)
        ensures
            r.key_code == 0,
            r.special_key == SpecialKey::NoKey,
            r.modifier_keys@.len() == 0,
    {
        KeyEvent { key_code: 0, special_key: SpecialKey::NoKey, modifier_keys: Vec::new() }
    }

    /// Whether Shift is held.
    pub fn shifted(&self) -> (r: bool)
        ensures
            r == self.modifier_keys@.contains(ModifierKey::Shift),
    {
        let mut i: usize = 0;
        while i < self.modifier_keys.len()
            invariant
                i <= self.modifier_keys@.len(),
                forall|j: int| 0 <= j < i ==> self.modifier_keys@[j] != ModifierKey::Shift,
            decreases self.modifier_keys@.len() - i,
        {
            if self.modifier_keys[i] == ModifierKey::Shift {
                return true;
            }
            i = i + 1;
        }
        false
    }
}

/// The configuration fields a request may carry; missing fields keep their
/// current values (set-config) or fall back to defaults (switch-mode).
#[derive(Debug, Clone, Copy, PartialEq, Eq, Structural)]
pub struct ConfigRequest {
    pub input_mode: Option<InputMode>,
    pub output_mode: Option<OutputMode>,
    pub khin_mode: Option<KhinMode>,
    pub telex_enabled: Option<bool>,
}

impl ConfigRequest {
    /// An empty configuration patch.
    pub fn new() -> (r: ConfigRequest)
        ensures
            r == (ConfigRequest {
                input_mode: None,
                output_mode: None,
                khin_mode: None,
                telex_enabled: None,
            }),
    {
        ConfigRequest { input_mode: None, output_mode: None, khin_mode: None, telex_enabled: None }
    }
}

/// One request to the engine.
#[derive(Debug, PartialEq, Eq)]
pub struct Request {
    pub command: CommandType,
    pub key_event: KeyEvent,
    pub config: ConfigRequest,
}

impl Request {
    /// An empty request.
    pub fn new() -> (r: Request)
        ensures
            r.command == CommandType::Unspecified,
            r.key_event.key_code == 0,
            r.key_event.special_key == SpecialKey::NoKey,
            r.key_event.modifier_keys@.len() == 0,
            r.config == (ConfigRequest {
                input_mode: None,
                output_mode: None,
                khin_mode: None,
                telex_enabled: None,
            }),
    {
        Request {
            command: CommandType::Unspecified,
            key_event: KeyEvent::new(),
            config: ConfigRequest::new(),
        }
    }
}

/// How one preedit segment is drawn by the host.
#[derive(Debug, Clone, Copy, PartialEq, Eq, Structural)]
pub enum SegmentStatus {
    Unmarked,
    Composing,
    Converted,
    Focused,
}

/// One run of the preedit with a single status.
#[derive(Debug, PartialEq, Eq)]
pub struct Segment {
    pub value: String,
    pub status: SegmentStatus,
}

/// The on-screen composition: its segments and the caret, in display
/// characters.
#[derive(Debug, PartialEq, Eq)]
pub struct Preedit {
    pub segments: Vec<Segment>,
    pub caret: usize,
    pub focused_caret: usize,
}

impl Preedit {
    /// An empty preedit.
    pub fn new() -> (r: Preedit)
        ensures
            r.segments@.len() == 0,
            r.caret == 0,
            r.focused_caret == 0,
    {
        Preedit { segments: Vec::new(), caret: 0, focused_caret: 0 }
    }
}

/// One selectable candidate, as shown to the host.
#[derive(Debug, PartialEq, Eq)]
pub struct Candidate {
    pub id: usize,
    pub value: String,
}

/// The candidate list: the candidates, the current page, and the focused
/// index if any.
#[derive(Debug, PartialEq, Eq)]
pub struct CandidateList {
    pub candidates: Vec<Candidate>,
    pub focused: Option<usize>,
    pub page: usize,
}

impl CandidateList {
    /// An empty candidate list.
    pub fn new() -> (r: CandidateList)
        ensures
            r.candidates@.len() == 0,
            r.focused is None,
            r.page == 0,
    {
        CandidateList { candidates: Vec::new(), focused: None, page: 0 }
    }
}

/// The engine's edit state, as reported to the host.
#[derive(Debug, Clone, Copy, PartialEq, Eq, Structural)]
pub enum EditState {
    Empty,
    Composing,
    Converted,
    Selecting,
    Illegal,
}

/// One response from the engine.
#[derive(Debug, PartialEq, Eq)]
pub struct Response {
    pub preedit: Preedit,
    pub candidate_list: CandidateList,
    pub edit_state: EditState,
    pub committed: bool,
    pub committed_text: String,
    pub error: bool,
}

impl Response {
    /// An empty, benign response.
    pub fn new() -> (r: Response)
        ensures
            r.preedit.segments@.len() == 0,
            r.preedit.caret == 0,
            r.preedit.focused_caret == 0,
            r.candidate_list.candidates@.len() == 0,
            r.candidate_list.focused is None,
            r.candidate_list.page == 0,
            r.edit_state == EditState::Empty,
            !r.committed,
            r.committed_text@.len() == 0,
            !r.error,
    {
        Response {
            preedit: Preedit::new(),
            candidate_list: CandidateList::new(),
            edit_state: EditState::Empty,
            committed: false,
            committed_text: String::new(),
            error: false,
        }
    }
}

} // verus!
