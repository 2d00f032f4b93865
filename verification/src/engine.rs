//! The engine: one session's state and the command dispatcher.
//!
//! Every request yields a response carrying the current preedit, candidate
//! list and edit state; commands the engine does not support answer with a
//! failure marker and leave the state untouched. Switching any mode resets
//! the composition first.

use vstd::prelude::*;

use crate::buffer::spec_elems_display;
use crate::buffer::spec_segments;
use crate::buffer_mgr::spec_after_focus;
use crate::buffer_mgr::spec_after_focus_step;
use crate::buffer_mgr::spec_after_insert;
use crate::buffer_mgr::spec_after_pop;
use crate::buffer_mgr::spec_next_focus_index;
use crate::buffer_mgr::spec_page_count;
use crate::buffer_mgr::spec_prev_focus_index;
use crate::buffer_mgr::spec_recomputed;
use crate::buffer_mgr::BufferMgr;
use crate::command::CommandType;
use crate::command::EditState;
use crate::command::Request;
use crate::command::Response;
use crate::command::Segment;
use crate::command::SpecialKey;
use crate::config::spec_initial_config;
use crate::config::Config;
use crate::config::InputMode;
use crate::config::KhinMode;
use crate::config::OutputMode;
use crate::config::ToneMode;
use crate::db::Database;
use crate::dict::spec_keys_dedup;
use crate::dict::Dictionary;

verus! {

/// The engine's shared read-only collaborators and configuration: the
/// conversion store, the dictionary drawn from it, and the configuration
/// snapshot.
pub struct EngInner {
    pub db: Database,
    pub dict: Dictionary,
    pub conf: Config,
}

/// The inner state is well-formed when the dictionary is exactly the word
/// list of the store: every dictionary word then has a conversion.
pub open spec fn spec_inner_wf(inner: &EngInner) -> bool {
    &&& inner.dict.wf()
    &&& inner.dict.spec_words() == spec_keys_dedup(inner.db.records@)
}

/// The printing ASCII character a key code names: letters, digits and
/// punctuation; anything else is no printing key.
pub open spec fn spec_ascii_char(code: i32) -> Option<char> {
    if 0x21 <= code <= 0x7E {
        Some((code as u8) as char)
    } else {
        None
    }
}

/// The printing ASCII character a key code names.
pub fn ascii_char_from_i32(ch: i32) -> (r: Option<char>)
    ensures
        r == spec_ascii_char(ch),
{
    if 0x21 <= ch && ch <= 0x7E {
        Some((ch as u8) as char)
    } else {
        None
    }
}

/// Whether a character is an ASCII digit.
pub open spec fn spec_is_digit(c: char) -> bool {
    '0' <= c && c <= '9'
}

/// The response mirrors the buffer state: the preedit's merged segments
/// and end-of-text caret, the candidate values with their page and focus,
/// and the edit state.
pub open spec fn spec_response_reflects(bm: BufferMgr, r: Response) -> bool {
    &&& r.preedit.segments@.map_values(|s: Segment| (s.status, s.value@)) == spec_segments(
        bm.composition.elems@,
        match bm.focused_elem {
            Some(k) => Some(k as int),
            None => None,
        },
    )
    &&& r.preedit.caret as nat == spec_elems_display(bm.composition.elems@).len()
    &&& r.preedit.focused_caret == r.preedit.caret
    &&& r.candidate_list.candidates@.len() == bm.candidates@.len()
    &&& (forall|i: int|
        0 <= i < bm.candidates@.len() ==> (#[trigger] r.candidate_list.candidates@[i]).value@
            == spec_elems_display(bm.candidates@[i].elems@))
    &&& r.candidate_list.focused == bm.focused
    &&& r.candidate_list.page == bm.page
    &&& r.edit_state == bm.edit_state
}

/// An empty, benign response mirrors a freshly reset buffer manager.
proof fn lemma_empty_response_reflects(bm: BufferMgr, r: Response)
    requires
        bm.is_initial(),
        r.preedit.segments@.len() == 0,
        r.preedit.caret == 0,
        r.preedit.focused_caret == 0,
        r.candidate_list.candidates@.len() == 0,
        r.candidate_list.focused is None,
        r.candidate_list.page == 0,
        r.edit_state == EditState::Empty,
    ensures
        spec_response_reflects(bm, r),
{
    assert(spec_segments(bm.composition.elems@, None) =~= Seq::<
        (crate::command::SegmentStatus, Seq<char>),
    >::empty());
    assert(r.preedit.segments@.map_values(|s: Segment| (s.status, s.value@)) =~= Seq::<
        (crate::command::SegmentStatus, Seq<char>),
    >::empty());
    assert(spec_elems_display(bm.composition.elems@) =~= Seq::<char>::empty());
}

/// The engine: the buffer manager and the shared inner state.
pub struct Engine {
    pub buffer_mgr: BufferMgr,
    pub inner: EngInner,
}

impl Engine {
    /// A well-formed engine.
    pub open spec fn wf(&self) -> bool {
        &&& spec_inner_wf(&self.inner)
        &&& self.buffer_mgr.wf()
    }

    /// Builds an engine over a conversion store: the dictionary is drawn
    /// from the store's records and the configuration starts at its
    /// defaults.
    pub fn new(db: Database) -> (r: Option<Engine>)
        ensures
            r is Some,
            r matches Some(e) ==> {
                &&& e.wf()
                &&& e.buffer_mgr.is_initial()
                &&& e.inner.conf == spec_initial_config()
                &&& e.inner.db.records@ == db.records@
            },
    {
        let dict = Dictionary::new(&db, ToneMode::Numeric);
        Some(
            Engine {
                buffer_mgr: BufferMgr::new(),
                inner: EngInner { db, dict, conf: Config::new() },
            },
        )
    }

    /// Copies the preedit of the current composition into the response.
    fn attach_preedit(&self, res: &mut Response)
        ensures
            *final(res) == (Response { preedit: final(res).preedit, ..*old(res) }),
            final(res).preedit.segments@.map_values(|s: Segment| (s.status, s.value@))
                == spec_segments(
                self.buffer_mgr.composition.elems@,
                match self.buffer_mgr.focused_elem {
                    Some(k) => Some(k as int),
                    None => None,
                },
            ),
            final(res).preedit.caret as nat == spec_elems_display(
                self.buffer_mgr.composition.elems@,
            ).len(),
            final(res).preedit.focused_caret == final(res).preedit.caret,
    {
        res.preedit = self.buffer_mgr.build_preedit();
    }

    /// Copies the current candidate list into the response.
    fn attach_candidate_list(&self, res: &mut Response)
        ensures
            *final(res) == (Response { candidate_list: final(res).candidate_list, ..*old(res) }),
            final(res).candidate_list.candidates@.len() == self.buffer_mgr.candidates@.len(),
            forall|i: int|
                0 <= i < self.buffer_mgr.candidates@.len() ==> (
                #[trigger] final(res).candidate_list.candidates@[i]).value@ == spec_elems_display(
                    self.buffer_mgr.candidates@[i].elems@,
                ),
            final(res).candidate_list.focused == self.buffer_mgr.focused,
            final(res).candidate_list.page == self.buffer_mgr.page,
    {
        res.candidate_list = self.buffer_mgr.get_candidates();
    }

    /// Copies the current edit state into the response.
    fn attach_edit_state(&self, res: &mut Response)
        ensures
            *final(res) == (Response { edit_state: self.buffer_mgr.edit_state, ..*old(res) }),
    {
        res.edit_state = self.buffer_mgr.edit_state();
    }

    /// Copies preedit, candidate list and edit state into the response.
    fn attach_buffer_data(&self, res: &mut Response)
        ensures
            spec_response_reflects(self.buffer_mgr, *final(res)),
            final(res).committed == old(res).committed,
            final(res).committed_text == old(res).committed_text,
            final(res).error == old(res).error,
    {
        self.attach_preedit(res);
        self.attach_candidate_list(res);
        self.attach_edit_state(res);
    }

    /// Commits the whole composition: its display text is returned in the
    /// response and the composition is cleared.
    pub fn on_commit_all(&mut self, _req: &Request) -> (r: Response)
        requires
            old(self).wf(),
        ensures
            final(self).wf(),
            final(self).inner == old(self).inner,
            final(self).buffer_mgr.is_initial(),
            r.committed,
            r.committed_text@ == spec_elems_display(old(self).buffer_mgr.composition.elems@),
            spec_response_reflects(final(self).buffer_mgr, r),
            !r.error,
    {
        let committed_text = self.buffer_mgr.commit_all(&self.inner);
        let mut response = Response::new();
        self.attach_buffer_data(&mut response);
        response.committed_text = committed_text;
        response.committed = true;
        response
    }

    /// Clears the composition; the response is empty and benign.
    pub fn on_reset(&mut self, _req: &Request) -> (r: Response)
        requires
            old(self).wf(),
        ensures
            final(self).wf(),
            final(self).inner == old(self).inner,
            final(self).buffer_mgr.is_initial(),
            spec_response_reflects(final(self).buffer_mgr, r),
            !r.committed,
            r.committed_text@.len() == 0,
            !r.error,
            r.edit_state == EditState::Empty,
    {
        self.buffer_mgr.reset();
        let r = Response::new();
        proof {
            lemma_empty_response_reflects(self.buffer_mgr, r);
        }
        r
    }
}

/// What focusing by a 1-based digit index leaves behind: the named
/// candidate of the current page gets the focus; an index off the page or
/// past the list changes nothing.
pub open spec fn spec_after_focus_by_index(
    old: BufferMgr,
    new: BufferMgr,
    inner: EngInner,
    idx: int,
) -> bool {
    if 1 <= idx <= 9 && old.page * 9 + (idx - 1) < old.candidates@.len() {
        spec_after_focus(old, new, inner, old.page * 9 + (idx - 1))
    } else {
        new == old
    }
}

/// What expanding the focused action candidate leaves behind: its
/// expansion becomes the candidate list with page and focus reset;
/// anything else changes nothing.
pub open spec fn spec_after_expand(old: BufferMgr, new: BufferMgr, inner: EngInner) -> bool {
    if (match old.focused {
        Some(f) => old.candidates@[f as int].elems@[0].is_action_spec(),
        None => false,
    }) {
        let ex = old.candidates@[old.focused.unwrap() as int].elems@[0].expansion_spec();
        &&& new.candidates@.len() == ex.len()
        &&& (forall|i: int|
            0 <= i < ex.len() ==> crate::converter::spec_candidate_buffer(
                #[trigger] new.candidates@[i],
                ex[i],
                inner.conf.khin_mode,
            ))
        &&& new.raw == old.raw
        &&& new.composition == old.composition
        &&& new.focused is None
        &&& new.page == 0
        &&& new.focused_elem == old.focused_elem
        &&& new.edit_state == old.edit_state
    } else {
        new == old
    }
}

/// What committing the focused candidate leaves behind: its display text
/// is committed and the unconsumed raw remainder re-seeds the composition;
/// with no focus the whole composition is committed and the manager
/// cleared.
pub open spec fn spec_after_commit_candidate(
    old: BufferMgr,
    new: BufferMgr,
    inner: EngInner,
    text: Seq<char>,
) -> bool {
    match old.focused {
        None => {
            &&& text == spec_elems_display(old.composition.elems@)
            &&& new.is_initial()
        },
        Some(f) => {
            let cr = crate::buffer::spec_elems_raw(old.candidates@[f as int].elems@);
            let rem = if cr.is_prefix_of(old.raw@) {
                old.raw@.skip(cr.len() as int)
            } else {
                Seq::<char>::empty()
            };
            &&& text == spec_elems_display(old.candidates@[f as int].elems@)
            &&& (rem.len() == 0 ==> new.is_initial())
            &&& (rem.len() > 0 ==> spec_recomputed(new, inner, rem))
        },
    }
}

/// What the Enter key leaves behind: classic mode expands a focused
/// action candidate, or commits the focused candidate and re-seeds from
/// the remainder; the other modes commit the whole composition.
pub open spec fn spec_enter_step(old: Engine, new: Engine, r: Response) -> bool {
    let bm = old.buffer_mgr;
    if old.inner.conf.input_mode == InputMode::Classic {
        if (match bm.focused {
            Some(f) => bm.candidates@[f as int].elems@[0].is_action_spec(),
            None => false,
        }) {
            &&& spec_after_expand(bm, new.buffer_mgr, old.inner)
            &&& !r.committed
            &&& spec_response_reflects(new.buffer_mgr, r)
        } else {
            &&& spec_after_commit_candidate(bm, new.buffer_mgr, old.inner, r.committed_text@)
            &&& r.committed
            &&& spec_response_reflects(new.buffer_mgr, r)
        }
    } else {
        &&& new.buffer_mgr.is_initial()
        &&& r.committed
        &&& r.committed_text@ == spec_elems_display(bm.composition.elems@)
        &&& spec_response_reflects(new.buffer_mgr, r)
    }
}

/// What the Space key leaves behind: the focus steps to `idx`; in classic
/// mode a step that lands in the illegal state (no candidates, text
/// waiting) forces a commit of the composition.
pub open spec fn spec_space_step(old: Engine, new: Engine, r: Response, idx: int) -> bool {
    let bm = old.buffer_mgr;
    exists|m: BufferMgr|
        {
            &&& #[trigger] spec_after_focus_step(bm, m, old.inner, idx)
            &&& if m.edit_state == EditState::Illegal && old.inner.conf.input_mode
                == InputMode::Classic {
                &&& spec_after_commit_candidate(m, new.buffer_mgr, old.inner, r.committed_text@)
                &&& r.committed
                &&& spec_response_reflects(new.buffer_mgr, r)
            } else {
                &&& new.buffer_mgr == m
                &&& !r.committed
                &&& spec_response_reflects(m, r)
            }
        }
}

/// What inserting a printing character leaves behind: the buffer manager
/// recomputes; should the composition come out empty, everything is
/// committed at once.
pub open spec fn spec_insert_step(old: Engine, new: Engine, r: Response, c: char) -> bool {
    exists|m: BufferMgr|
        {
            &&& #[trigger] spec_after_insert(old.buffer_mgr, m, old.inner, c)
            &&& if m.edit_state == EditState::Empty {
                &&& new.buffer_mgr.is_initial()
                &&& r.committed
                &&& r.committed_text@ == spec_elems_display(m.composition.elems@)
                &&& spec_response_reflects(new.buffer_mgr, r)
            } else {
                &&& new.buffer_mgr == m
                &&& !r.committed
                &&& spec_response_reflects(m, r)
            }
        }
}

/// What a digit key leaves behind in classic mode with a focused
/// candidate: it names a candidate of the page; an action candidate
/// expands, any other is committed.
pub open spec fn spec_digit_select(old: Engine, new: Engine, r: Response, idx: int) -> bool {
    let bm = old.buffer_mgr;
    exists|m: BufferMgr|
        {
            &&& #[trigger] spec_after_focus_by_index(bm, m, old.inner, idx)
            &&& if (match m.focused {
                Some(f) => m.candidates@[f as int].elems@[0].is_action_spec(),
                None => false,
            }) {
                &&& spec_after_expand(m, new.buffer_mgr, old.inner)
                &&& !r.committed
                &&& spec_response_reflects(new.buffer_mgr, r)
            } else {
                &&& spec_after_commit_candidate(m, new.buffer_mgr, old.inner, r.committed_text@)
                &&& r.committed
                &&& spec_response_reflects(new.buffer_mgr, r)
            }
        }
}

/// What one keystroke leaves behind, by its special key.
pub open spec fn spec_on_send_key(old: Engine, new: Engine, req: Request, r: Response) -> bool {
    let bm = old.buffer_mgr;
    let shifted = req.key_event.modifier_keys@.contains(crate::command::ModifierKey::Shift);
    match req.key_event.special_key {
        SpecialKey::NoKey => match spec_ascii_char(req.key_event.key_code) {
            None => new.buffer_mgr == bm && !r.committed && spec_response_reflects(bm, r),
            Some(c) => if spec_is_digit(c) && old.inner.conf.input_mode == InputMode::Classic
                && bm.focused is Some {
                spec_digit_select(old, new, r, c as u8 - 48)
            } else {
                spec_insert_step(old, new, r, c)
            },
        },
        SpecialKey::Space => spec_space_step(
            old,
            new,
            r,
            if shifted {
                spec_prev_focus_index(bm)
            } else {
                spec_next_focus_index(bm)
            },
        ),
        SpecialKey::Enter => spec_enter_step(old, new, r),
        SpecialKey::Backspace => {
            &&& spec_after_pop(bm, new.buffer_mgr, old.inner)
            &&& !r.committed
            &&& spec_response_reflects(new.buffer_mgr, r)
        },
        SpecialKey::Tab => {
            &&& (bm.candidates@.len() == 0 ==> new.buffer_mgr == bm && !r.committed
                && spec_response_reflects(bm, r))
            &&& (bm.candidates@.len() > 0 ==> spec_after_focus(
                bm,
                new.buffer_mgr,
                old.inner,
                if shifted {
                    9 * (if bm.page == 0 {
                        spec_page_count(bm.candidates@.len()) - 1
                    } else {
                        bm.page - 1
                    })
                } else {
                    9 * (((bm.page + 1) as nat % spec_page_count(bm.candidates@.len())) as int)
                },
            ) && !r.committed && spec_response_reflects(new.buffer_mgr, r))
        },
        SpecialKey::Up => {
            &&& spec_after_focus_step(bm, new.buffer_mgr, old.inner, spec_prev_focus_index(bm))
            &&& !r.committed
            &&& spec_response_reflects(new.buffer_mgr, r)
        },
        SpecialKey::Down => {
            &&& spec_after_focus_step(bm, new.buffer_mgr, old.inner, spec_next_focus_index(bm))
            &&& !r.committed
            &&& spec_response_reflects(new.buffer_mgr, r)
        },
        _ => new.buffer_mgr == bm && !r.committed && spec_response_reflects(bm, r),
    }
}

impl Engine {
    /// Commits in classic mode: the focused candidate's text goes out and
    /// the remainder re-seeds the composition; other modes commit the
    /// whole composition.
    fn on_commit(&mut self, _req: &Request) -> (r: Response)
        requires
            old(self).wf(),
        ensures
            final(self).wf(),
            final(self).inner == old(self).inner,
            r.committed,
            !r.error,
            old(self).inner.conf.input_mode == InputMode::Classic ==> spec_after_commit_candidate(
                old(self).buffer_mgr,
                final(self).buffer_mgr,
                old(self).inner,
                r.committed_text@,
            ) && spec_response_reflects(final(self).buffer_mgr, r),
            old(self).inner.conf.input_mode != InputMode::Classic ==> {
                &&& final(self).buffer_mgr.is_initial()
                &&& r.committed_text@ == spec_elems_display(
                    old(self).buffer_mgr.composition.elems@,
                )
                &&& spec_response_reflects(final(self).buffer_mgr, r)
            },
    {
        if self.inner.conf.input_mode() == InputMode::Classic {
            let committed_text = self.buffer_mgr.commit_candidate_and_composite_remainder(
                &self.inner,
            );
            let mut response = Response::new();
            self.attach_buffer_data(&mut response);
            response.committed_text = committed_text;
            response.committed = true;
            response
        } else {
            self.on_commit_all(_req)
        }
    }

    /// Handles Enter: classic mode expands a focused action candidate or
    /// commits the focused one; other modes commit everything.
    fn on_enter(&mut self, req: &Request) -> (r: Response)
        requires
            old(self).wf(),
        ensures
            final(self).wf(),
            final(self).inner == old(self).inner,
            !r.error,
            spec_enter_step(*old(self), *final(self), r),
    {
        if self.inner.conf.input_mode() == InputMode::Classic {
            if self.buffer_mgr.focused_candidate_is_action() {
                self.buffer_mgr.expand_candidate(&self.inner);
                let mut response = Response::new();
                self.attach_buffer_data(&mut response);
                return response;
            }
        }
        self.on_commit(req)
    }

    /// Handles one keystroke.
    pub fn on_send_key(&mut self, req: &Request) -> (r: Response)
        requires
            old(self).wf(),
        ensures
            final(self).wf(),
            final(self).inner == old(self).inner,
            !r.error,
            spec_on_send_key(*old(self), *final(self), *req, r),
    {
        match req.key_event.special_key {
            SpecialKey::NoKey => {
                let ch = ascii_char_from_i32(req.key_event.key_code);
                if let Some(ch) = ch {
                    if '0' <= ch && ch <= '9' && self.inner.conf.input_mode() == InputMode::Classic
                        && self.buffer_mgr.is_focused() {
                        let idx = (ch as u8 - 48u8) as usize;
                        self.buffer_mgr.focus_candidate_by_index(&self.inner, idx);
                        let ghost m = self.buffer_mgr;
                        if self.buffer_mgr.focused_candidate_is_action() {
                            self.buffer_mgr.expand_candidate(&self.inner);
                            let mut response = Response::new();
                            self.attach_buffer_data(&mut response);
                            proof {
                                assert(spec_after_focus_by_index(
                                    old(self).buffer_mgr,
                                    m,
                                    old(self).inner,
                                    idx as int,
                                ));
                            }
                            return response;
                        }
                        let committed_text = self.buffer_mgr.commit_candidate_and_composite_remainder(
                            &self.inner,
                        );
                        let mut response = Response::new();
                        self.attach_buffer_data(&mut response);
                        response.committed_text = committed_text;
                        response.committed = true;
                        proof {
                            assert(spec_after_focus_by_index(
                                old(self).buffer_mgr,
                                m,
                                old(self).inner,
                                idx as int,
                            ));
                        }
                        return response;
                    }
                    self.buffer_mgr.insert(&self.inner, ch);
                    let ghost m = self.buffer_mgr;
                    if self.buffer_mgr.edit_state() == EditState::Empty {
                        let r = self.on_commit_all(req);
                        proof {
                            assert(spec_after_insert(
                                old(self).buffer_mgr,
                                m,
                                old(self).inner,
                                ch,
                            ));
                        }
                        return r;
                    }
                    let mut response = Response::new();
                    self.attach_buffer_data(&mut response);
                    proof {
                        assert(spec_after_insert(old(self).buffer_mgr, m, old(self).inner, ch));
                    }
                    return response;
                }
                let mut response = Response::new();
                self.attach_buffer_data(&mut response);
                response
            },
            SpecialKey::Space => {
                if req.key_event.shifted() {
                    self.buffer_mgr.focus_prev_candidate(&self.inner);
                } else {
                    self.buffer_mgr.focus_next_candidate(&self.inner);
                }
                let ghost m = self.buffer_mgr;
                if self.buffer_mgr.edit_state() == EditState::Illegal && self.inner.conf.input_mode()
                    == InputMode::Classic {
                    let r = self.on_commit(req);
                    proof {
                        assert(spec_after_focus_step(
                            old(self).buffer_mgr,
                            m,
                            old(self).inner,
                            if req.key_event.modifier_keys@.contains(
                                crate::command::ModifierKey::Shift,
                            ) {
                                spec_prev_focus_index(old(self).buffer_mgr)
                            } else {
                                spec_next_focus_index(old(self).buffer_mgr)
                            },
                        ));
                    }
                    return r;
                }
                let mut response = Response::new();
                self.attach_buffer_data(&mut response);
                proof {
                    assert(spec_after_focus_step(
                        old(self).buffer_mgr,
                        m,
                        old(self).inner,
                        if req.key_event.modifier_keys@.contains(
                            crate::command::ModifierKey::Shift,
                        ) {
                            spec_prev_focus_index(old(self).buffer_mgr)
                        } else {
                            spec_next_focus_index(old(self).buffer_mgr)
                        },
                    ));
                }
                response
            },
            SpecialKey::Enter => self.on_enter(req),
            SpecialKey::Backspace => {
                self.buffer_mgr.pop(&self.inner);
                let mut response = Response::new();
                self.attach_buffer_data(&mut response);
                response
            },
            SpecialKey::Tab => {
                if req.key_event.shifted() {
                    self.buffer_mgr.show_prev_page_candidate(&self.inner);
                } else {
                    self.buffer_mgr.show_next_page_candidate(&self.inner);
                }
                let mut response = Response::new();
                self.attach_buffer_data(&mut response);
                response
            },
            SpecialKey::Up => {
                self.buffer_mgr.focus_prev_candidate(&self.inner);
                let mut response = Response::new();
                self.attach_buffer_data(&mut response);
                response
            },
            SpecialKey::Down => {
                self.buffer_mgr.focus_next_candidate(&self.inner);
                let mut response = Response::new();
                self.attach_buffer_data(&mut response);
                response
            },
            _ => {
                let mut response = Response::new();
                self.attach_buffer_data(&mut response);
                response
            },
        }
    }
}

impl Engine {
    /// Switches the input mode, resetting the composition first; a request
    /// without one falls back to continuous mode.
    pub fn on_switch_input_mode(&mut self, req: &Request) -> (r: Response)
        requires
            old(self).wf(),
        ensures
            final(self).wf(),
            final(self).buffer_mgr.is_initial(),
            final(self).inner.db == old(self).inner.db,
            final(self).inner.dict == old(self).inner.dict,
            final(self).inner.conf == (Config {
                input_mode: match req.config.input_mode {
                    Some(m) => m,
                    None => InputMode::Continuous,
                },
                ..old(self).inner.conf
            }),
            spec_response_reflects(final(self).buffer_mgr, r),
            !r.committed,
            r.committed_text@.len() == 0,
            !r.error,
            r.edit_state == EditState::Empty,
    {
        self.buffer_mgr.reset();
        match req.config.input_mode {
            Some(m) => self.inner.conf.set_input_mode(m),
            None => self.inner.conf.set_input_mode(InputMode::Continuous),
        }
        let r = Response::new();
        proof {
            lemma_empty_response_reflects(self.buffer_mgr, r);
        }
        r
    }

    /// Switches the output mode, resetting the composition first; a
    /// request without one falls back to Romanized output.
    pub fn on_switch_output_mode(&mut self, req: &Request) -> (r: Response)
        requires
            old(self).wf(),
        ensures
            final(self).wf(),
            final(self).buffer_mgr.is_initial(),
            final(self).inner.db == old(self).inner.db,
            final(self).inner.dict == old(self).inner.dict,
            final(self).inner.conf == (Config {
                output_mode: match req.config.output_mode {
                    Some(m) => m,
                    None => OutputMode::Lomaji,
                },
                ..old(self).inner.conf
            }),
            spec_response_reflects(final(self).buffer_mgr, r),
            !r.committed,
            r.committed_text@.len() == 0,
            !r.error,
            r.edit_state == EditState::Empty,
    {
        self.buffer_mgr.reset();
        match req.config.output_mode {
            Some(m) => self.inner.conf.set_output_mode(m),
            None => self.inner.conf.set_output_mode(OutputMode::Lomaji),
        }
        let r = Response::new();
        proof {
            lemma_empty_response_reflects(self.buffer_mgr, r);
        }
        r
    }

    /// Applies a whole configuration, resetting the composition first.
    /// Missing enum fields fall back to their first values; the tone mode
    /// changes only when the request carries the Telex flag.
    pub fn on_set_config(&mut self, req: &Request) -> (r: Response)
        requires
            old(self).wf(),
        ensures
            final(self).wf(),
            final(self).buffer_mgr.is_initial(),
            final(self).inner.db == old(self).inner.db,
            final(self).inner.dict == old(self).inner.dict,
            final(self).inner.conf.input_mode == (match req.config.input_mode {
                Some(m) => m,
                None => InputMode::Continuous,
            }),
            final(self).inner.conf.output_mode == (match req.config.output_mode {
                Some(m) => m,
                None => OutputMode::Lomaji,
            }),
            final(self).inner.conf.khin_mode == (match req.config.khin_mode {
                Some(m) => m,
                None => KhinMode::Khinless,
            }),
            final(self).inner.conf.tone_mode == (match req.config.telex_enabled {
                Some(true) => ToneMode::Telex(old(self).inner.conf.spec_telex_keys()),
                Some(false) => ToneMode::Numeric,
                None => old(self).inner.conf.tone_mode,
            }),
            spec_response_reflects(final(self).buffer_mgr, r),
            !r.committed,
            r.committed_text@.len() == 0,
            !r.error,
            r.edit_state == EditState::Empty,
    {
        self.buffer_mgr.reset();
        let keys = self.inner.conf.telex_keys();
        match req.config.input_mode {
            Some(m) => self.inner.conf.set_input_mode(m),
            None => self.inner.conf.set_input_mode(InputMode::Continuous),
        }
        match req.config.output_mode {
            Some(m) => self.inner.conf.set_output_mode(m),
            None => self.inner.conf.set_output_mode(OutputMode::Lomaji),
        }
        match req.config.khin_mode {
            Some(m) => self.inner.conf.set_khin_mode(m),
            None => self.inner.conf.set_khin_mode(KhinMode::Khinless),
        }
        match req.config.telex_enabled {
            Some(true) => self.inner.conf.set_tone_mode(ToneMode::Telex(keys)),
            Some(false) => self.inner.conf.set_tone_mode(ToneMode::Numeric),
            None => {},
        }
        let r = Response::new();
        proof {
            lemma_empty_response_reflects(self.buffer_mgr, r);
        }
        r
    }

    /// The answer to a command the engine does not support: a failure
    /// marker, no state change.
    fn not_implemented(&self) -> (r: Response)
        ensures
            r.error,
            !r.committed,
            r.committed_text@.len() == 0,
            r.edit_state == EditState::Empty,
    {
        let mut r = Response::new();
        r.error = true;
        r
    }

    /// Revert is not supported: a failure response, no state change.
    pub fn on_revert(&self, _req: &Request) -> (r: Response)
        ensures
            r.error,
            !r.committed,
            r.committed_text@.len() == 0,
    {
        self.not_implemented()
    }

    /// Selecting a candidate directly is not supported.
    pub fn on_select_candidate(&self, _req: &Request) -> (r: Response)
        ensures
            r.error,
            !r.committed,
            r.committed_text@.len() == 0,
    {
        self.not_implemented()
    }

    /// Focusing a candidate directly is not supported.
    pub fn on_focus_candidate(&self, _req: &Request) -> (r: Response)
        ensures
            r.error,
            !r.committed,
            r.committed_text@.len() == 0,
    {
        self.not_implemented()
    }

    /// Placing the cursor is not supported.
    pub fn on_place_cursor(&self, _req: &Request) -> (r: Response)
        ensures
            r.error,
            !r.committed,
            r.committed_text@.len() == 0,
    {
        self.not_implemented()
    }

    /// Disabling is not supported.
    pub fn on_disable(&self, _req: &Request) -> (r: Response)
        ensures
            r.error,
            !r.committed,
            r.committed_text@.len() == 0,
    {
        self.not_implemented()
    }

    /// Enabling is not supported.
    pub fn on_enable(&self, _req: &Request) -> (r: Response)
        ensures
            r.error,
            !r.committed,
            r.committed_text@.len() == 0,
    {
        self.not_implemented()
    }

    /// Probing a key without sending it is not supported.
    pub fn on_test_send_key(&self, _req: &Request) -> (r: Response)
        ensures
            r.error,
            !r.committed,
            r.committed_text@.len() == 0,
    {
        self.not_implemented()
    }

    /// Listing emojis is not supported.
    pub fn on_list_emojis(&self, _req: &Request) -> (r: Response)
        ensures
            r.error,
            !r.committed,
            r.committed_text@.len() == 0,
    {
        self.not_implemented()
    }

    /// Clearing user data is not supported.
    pub fn on_reset_user_data(&self, _req: &Request) -> (r: Response)
        ensures
            r.error,
            !r.committed,
            r.committed_text@.len() == 0,
    {
        self.not_implemented()
    }

    /// Shutting down through a request is not supported.
    pub fn on_shutdown(&self, _req: &Request) -> (r: Response)
        ensures
            r.error,
            !r.committed,
            r.committed_text@.len() == 0,
    {
        self.not_implemented()
    }

    /// Dispatches one request and assembles its response. Unknown and
    /// unsupported commands answer with a failure marker and leave the
    /// state untouched.
    pub fn send_command(&mut self, req: &Request) -> (r: Response)
        requires
            old(self).wf(),
        ensures
            final(self).wf(),
            final(self).inner.db == old(self).inner.db,
            final(self).inner.dict == old(self).inner.dict,
            req.command == CommandType::SendKey ==> final(self).inner == old(self).inner
                && spec_on_send_key(*old(self), *final(self), *req, r),
            req.command == CommandType::Reset ==> final(self).buffer_mgr.is_initial()
                && final(self).inner == old(self).inner && spec_response_reflects(
                final(self).buffer_mgr,
                r,
            ) && !r.committed && r.committed_text@.len() == 0 && !r.error,
            req.command == CommandType::Commit ==> final(self).buffer_mgr.is_initial()
                && final(self).inner == old(self).inner && r.committed && r.committed_text@
                == spec_elems_display(old(self).buffer_mgr.composition.elems@)
                && spec_response_reflects(final(self).buffer_mgr, r) && !r.error,
            req.command == CommandType::SwitchInputMode ==> final(self).buffer_mgr.is_initial()
                && final(self).inner.conf == (Config {
                input_mode: match req.config.input_mode {
                    Some(m) => m,
                    None => InputMode::Continuous,
                },
                ..old(self).inner.conf
            }) && spec_response_reflects(final(self).buffer_mgr, r) && !r.committed
                && r.committed_text@.len() == 0 && !r.error,
            req.command == CommandType::SwitchOutputMode ==> final(self).buffer_mgr.is_initial()
                && final(self).inner.conf == (Config {
                output_mode: match req.config.output_mode {
                    Some(m) => m,
                    None => OutputMode::Lomaji,
                },
                ..old(self).inner.conf
            }) && spec_response_reflects(final(self).buffer_mgr, r) && !r.committed
                && r.committed_text@.len() == 0 && !r.error,
            req.command == CommandType::SetConfig ==> final(self).buffer_mgr.is_initial() && {
                &&& final(self).inner.conf.input_mode == (match req.config.input_mode {
                    Some(m) => m,
                    None => InputMode::Continuous,
                })
                &&& final(self).inner.conf.output_mode == (match req.config.output_mode {
                    Some(m) => m,
                    None => OutputMode::Lomaji,
                })
                &&& final(self).inner.conf.khin_mode == (match req.config.khin_mode {
                    Some(m) => m,
                    None => KhinMode::Khinless,
                })
                &&& final(self).inner.conf.tone_mode == (match req.config.telex_enabled {
                    Some(true) => ToneMode::Telex(old(self).inner.conf.spec_telex_keys()),
                    Some(false) => ToneMode::Numeric,
                    None => old(self).inner.conf.tone_mode,
                })
                &&& spec_response_reflects(final(self).buffer_mgr, r)
                &&& !r.committed
                &&& r.committed_text@.len() == 0
                &&& !r.error
            },
            (req.command == CommandType::Unspecified || req.command == CommandType::Revert
                || req.command == CommandType::SelectCandidate || req.command
                == CommandType::FocusCandidate || req.command == CommandType::PlaceCursor
                || req.command == CommandType::Disable || req.command == CommandType::Enable
                || req.command == CommandType::TestSendKey || req.command
                == CommandType::ListEmojis || req.command == CommandType::ResetUserData
                || req.command == CommandType::Shutdown) ==> r.error && !r.committed
                && r.committed_text@.len() == 0 && *final(self) == *old(self),
    {
        match req.command {
            CommandType::Unspecified => self.not_implemented(),
            CommandType::SendKey => self.on_send_key(req),
            CommandType::Revert => self.on_revert(req),
            CommandType::Reset => self.on_reset(req),
            CommandType::Commit => self.on_commit_all(req),
            CommandType::SelectCandidate => self.on_select_candidate(req),
            CommandType::FocusCandidate => self.on_focus_candidate(req),
            CommandType::SwitchInputMode => self.on_switch_input_mode(req),
            CommandType::SwitchOutputMode => self.on_switch_output_mode(req),
            CommandType::PlaceCursor => self.on_place_cursor(req),
            CommandType::Disable => self.on_disable(req),
            CommandType::Enable => self.on_enable(req),
            CommandType::SetConfig => self.on_set_config(req),
            CommandType::TestSendKey => self.on_test_send_key(req),
            CommandType::ListEmojis => self.on_list_emojis(req),
            CommandType::ResetUserData => self.on_reset_user_data(req),
            CommandType::Shutdown => self.on_shutdown(req),
        }
    }
}

/// Sending keystrokes never touches the configuration or the stores, and
/// Reset restores the initial buffer state; the observables of a reset
/// engine are those of a fresh one: an empty preedit with the caret at
/// zero, no candidates, and the empty edit state.
pub proof fn lemma_reset_restores_initial_observables(bm: BufferMgr, r: Response)
    requires
        bm.is_initial(),
        spec_response_reflects(bm, r),
    ensures
        r.preedit.segments@.len() == 0,
        r.preedit.caret == 0,
        r.candidate_list.candidates@.len() == 0,
        r.candidate_list.focused is None,
        r.candidate_list.page == 0,
        r.edit_state == EditState::Empty,
{
    assert(spec_segments(bm.composition.elems@, None) =~= Seq::<
        (crate::command::SegmentStatus, Seq<char>),
    >::empty());
    assert(r.preedit.segments@.map_values(|s: Segment| (s.status, s.value@)).len() == 0);
    assert(spec_elems_display(bm.composition.elems@) =~= Seq::<char>::empty());
}

} // verus!
