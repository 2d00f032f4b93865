//! The buffer manager: the edit state machine over one composition.
//!
//! It owns the canonical raw key buffer, the composition derived from it,
//! the candidate list with its focus and page, and the edit state. Every
//! operation keeps the invariant that the elements' raw texts concatenate
//! to the tracked raw buffer, and that the page always holds the focused
//! candidate.

use vstd::prelude::*;
use vstd::string::StringExecFns;

use crate::buffer::spec_elems_display;
use crate::buffer::spec_elems_raw;
use crate::buffer::spec_segments;
use crate::buffer::Buffer;
use crate::command::Candidate;
use crate::command::CandidateList;
use crate::command::EditState;
use crate::command::Preedit;
use crate::command::Segment;
use crate::config::InputMode;
use crate::converter::convert_all;
use crate::converter::convert_to_telex;
use crate::converter::get_candidates;
use crate::converter::spec_candidate_buffer;
use crate::converter::spec_convert_all_model;
use crate::converter::spec_convert_to_telex_text;
use crate::converter::spec_get_candidates_convs;
use crate::elem::BufferElement;
use crate::elem::BufferElementEnum;
use crate::elem::KhiinElem;
use crate::engine::spec_inner_wf;
use crate::engine::EngInner;
use crate::text::str_is_prefix;

verus! {

/// Candidates per page.
pub const PAGE_SIZE: usize = 9;

/// The number of pages a candidate list of `n` entries fills.
pub open spec fn spec_page_count(n: nat) -> nat {
    (n + 8) / 9
}

/// The buffer manager's state.
pub struct BufferMgr {
    /// The canonical raw key sequence.
    pub raw: String,
    /// The composition derived from it.
    pub composition: Buffer,
    /// The focused element of the composition, if any.
    pub focused_elem: Option<usize>,
    /// The current candidate buffers.
    pub candidates: Vec<Buffer>,
    /// The focused candidate, if any.
    pub focused: Option<usize>,
    /// The candidate page in view.
    pub page: usize,
    pub edit_state: EditState,
}

impl BufferMgr {
    /// The standing invariants: the elements' raw texts concatenate to the
    /// tracked raw buffer; the page is the focused candidate's page, and
    /// the first page without a focus; every candidate is one element; a
    /// focused element lies inside the composition.
    pub open spec fn wf(&self) -> bool {
        &&& spec_elems_raw(self.composition.elems@) == self.raw@
        &&& match self.focused {
            Some(f) => f < self.candidates@.len() && self.page == f as nat / 9,
            None => self.page == 0,
        }
        &&& forall|i: int|
            0 <= i < self.candidates@.len() ==> (#[trigger] self.candidates@[i]).elems@.len() == 1
        &&& match self.focused_elem {
            Some(k) => k < self.composition.elems@.len(),
            None => true,
        }
    }

    /// A freshly created or fully reset manager.
    pub open spec fn is_initial(&self) -> bool {
        &&& self.raw@.len() == 0
        &&& self.composition.elems@.len() == 0
        &&& self.focused_elem is None
        &&& self.candidates@.len() == 0
        &&& self.focused is None
        &&& self.page == 0
        &&& self.edit_state == EditState::Empty
    }

    /// A fresh manager: everything empty, state `Empty`.
    pub fn new() -> (r: BufferMgr)
        ensures
            r.is_initial(),
            r.wf(),
    {
        let r = BufferMgr {
            raw: String::new(),
            composition: Buffer::new(),
            focused_elem: None,
            candidates: Vec::new(),
            focused: None,
            page: 0,
            edit_state: EditState::Empty,
        };
        proof {
            assert(spec_elems_raw(r.composition.elems@) =~= r.raw@);
        }
        r
    }

    /// Clears the composition, the candidates, the focus and the caret;
    /// the state returns to `Empty`.
    pub fn reset(&mut self)
        ensures
            final(self).is_initial(),
            final(self).wf(),
    {
        self.raw = String::new();
        self.composition = Buffer::new();
        self.focused_elem = None;
        self.candidates = Vec::new();
        self.focused = None;
        self.page = 0;
        self.edit_state = EditState::Empty;
        proof {
            assert(spec_elems_raw(self.composition.elems@) =~= self.raw@);
        }
    }

    /// The current edit state.
    pub fn edit_state(&self) -> (r: EditState)
        ensures
            r == self.edit_state,
    {
        self.edit_state
    }

    /// Whether a candidate is focused.
    pub fn is_focused(&self) -> (r: bool)
        ensures
            r == (self.focused is Some),
    {
        self.focused.is_some()
    }
}

/// What holds after the shared non-manual recomputation: the composition
/// and candidates are rebuilt from the new raw buffer, the focus and page
/// are cleared, and the state is `Composing` unless the composition came
/// out empty.
pub open spec fn spec_recomputed(new: BufferMgr, inner: EngInner, raw: Seq<char>) -> bool {
    &&& new.raw@ == raw
    &&& spec_elems_raw(new.composition.elems@) == raw
    &&& new.composition.elems@.map_values(|e: BufferElementEnum| (e.raw_spec(), e.display_spec(), e.candidate_spec()))
        == spec_convert_all_model(
        inner.db.records@,
        inner.dict.spec_words(),
        inner.conf.khin_mode,
        raw,
    )
    &&& (forall|i: int|
        0 <= i < new.composition.elems@.len() ==> !(
        #[trigger] new.composition.elems@[i]).converted_spec()
            && !new.composition.elems@[i].is_action_spec())
    &&& spec_candidates_match(new.candidates@, inner, raw)
    &&& new.focused is None
    &&& new.page == 0
    &&& new.focused_elem is None
    &&& new.edit_state == (if new.composition.elems@.len() == 0 {
        EditState::Empty
    } else {
        EditState::Composing
    })
}

/// The candidate buffers show exactly the conversions the converter
/// selects for `raw`.
pub open spec fn spec_candidates_match(
    cands: Seq<Buffer>,
    inner: EngInner,
    raw: Seq<char>,
) -> bool {
    &&& cands.len() == spec_get_candidates_convs(
        inner.db.records@,
        inner.dict.spec_words(),
        raw,
    ).len()
    &&& forall|i: int|
        0 <= i < cands.len() ==> spec_candidate_buffer(
            #[trigger] cands[i],
            spec_get_candidates_convs(inner.db.records@, inner.dict.spec_words(), raw)[i],
            inner.conf.khin_mode,
        )
}

/// What `insert` leaves behind: in continuous and classic modes the key
/// joins the raw buffer and everything is recomputed; in manual mode the
/// Telex conversion of the current text becomes both the composition and
/// the new raw buffer.
pub open spec fn spec_after_insert(
    old: BufferMgr,
    new: BufferMgr,
    inner: EngInner,
    ch: char,
) -> bool {
    if inner.conf.input_mode == InputMode::Manual {
        spec_recomputed(new, inner, spec_convert_to_telex_text(inner.conf, old.raw@, ch))
    } else {
        spec_recomputed(new, inner, old.raw@.push(ch))
    }
}

/// What `pop` leaves behind: the raw buffer loses its last character; a
/// buffer that empties resets the manager, and manual mode keeps the
/// remaining text as one plain run.
pub open spec fn spec_after_pop(old: BufferMgr, new: BufferMgr, inner: EngInner) -> bool {
    if old.raw@.len() <= 1 {
        new.is_initial()
    } else {
        if inner.conf.input_mode == InputMode::Manual {
            &&& new.raw@ == old.raw@.drop_last()
            &&& spec_elems_raw(new.composition.elems@) == new.raw@
            &&& new.composition.elems@.len() == 1
            &&& new.composition.elems@[0].display_spec() == new.raw@
            &&& !new.composition.elems@[0].converted_spec()
            &&& spec_candidates_match(new.candidates@, inner, new.raw@)
            &&& new.focused is None
            &&& new.page == 0
            &&& new.focused_elem is None
            &&& new.edit_state == EditState::Composing
        } else {
            spec_recomputed(new, inner, old.raw@.drop_last())
        }
    }
}

impl BufferMgr {
    /// Applies the recomputation shared by continuous and classic modes.
    fn recompute(&mut self, inner: &EngInner, raw: String)
        requires
            spec_inner_wf(inner),
        ensures
            spec_recomputed(*final(self), *inner, raw@),
            final(self).wf(),
    {
        self.composition = convert_all(inner, raw.as_str());
        self.candidates = get_candidates(inner, raw.as_str());
        self.raw = raw;
        self.focused = None;
        self.page = 0;
        self.focused_elem = None;
        self.edit_state = if self.composition.is_empty() {
            EditState::Empty
        } else {
            EditState::Composing
        };
    }

    /// Inserts one character: the raw buffer grows (or, in manual mode, is
    /// replaced by the Telex conversion) and the composition and
    /// candidates are recomputed.
    pub fn insert(&mut self, inner: &EngInner, ch: char)
        requires
            spec_inner_wf(inner),
            old(self).wf(),
        ensures
            spec_after_insert(*old(self), *final(self), *inner, ch),
            final(self).wf(),
            inner.conf.input_mode != InputMode::Manual ==> final(self).edit_state
                == EditState::Composing,
    {
        match inner.conf.input_mode() {
            InputMode::Manual => {
                let telex = convert_to_telex(inner, self.raw.as_str(), ch);
                let text = telex.raw_text();
                self.recompute(inner, text);
            },
            _ => {
                let mut raw = self.raw.clone();
                raw.push(ch);
                self.recompute(inner, raw);
                proof {
                    // a non-empty raw buffer never composes to nothing
                    crate::converter::lemma_convert_all_model_nonempty(
                        inner.db.records@,
                        inner.dict.spec_words(),
                        inner.conf.khin_mode,
                        old(self).raw@.push(ch),
                    );
                }
            },
        }
    }

    /// Removes the last raw character and recomputes; an emptied buffer
    /// resets the manager.
    pub fn pop(&mut self, inner: &EngInner)
        requires
            spec_inner_wf(inner),
            old(self).wf(),
        ensures
            spec_after_pop(*old(self), *final(self), *inner),
            final(self).wf(),
    {
        let n = self.raw.as_str().unicode_len();
        if n <= 1 {
            self.reset();
            return ;
        }
        let shorter = self.raw.as_str().substring_char(0, n - 1);
        proof {
            assert(shorter@ =~= self.raw@.drop_last());
        }
        match inner.conf.input_mode() {
            InputMode::Manual => {
                let text = shorter.to_owned();
                let mut composition = Buffer::new();
                composition.push(
                    BufferElementEnum::StringElem(crate::elem::StringElem::from_str(text.as_str())),
                );
                self.candidates = get_candidates(inner, text.as_str());
                proof {
                    assert(composition.elems@.drop_last() =~= Seq::<BufferElementEnum>::empty());
                    assert(spec_elems_raw(composition.elems@.drop_last()) =~= Seq::<char>::empty());
                    assert(spec_elems_raw(composition.elems@) =~= composition.elems@[0].raw_spec());
                }
                self.composition = composition;
                self.raw = text;
                self.focused = None;
                self.page = 0;
                self.focused_elem = None;
                self.edit_state = EditState::Composing;
            },
            _ => {
                let text = shorter.to_owned();
                self.recompute(inner, text);
            },
        }
    }

    /// Commits the whole composition: its display text is returned and the
    /// manager is cleared.
    pub fn commit_all(&mut self, _inner: &EngInner) -> (r: String)
        requires
            old(self).wf(),
        ensures
            r@ == spec_elems_display(old(self).composition.elems@),
            final(self).is_initial(),
            final(self).wf(),
    {
        let text = self.composition.display_text();
        self.reset();
        text
    }
}

/// Where the next focus lands: the first candidate from no focus, the
/// following one otherwise, wrapping at the end.
pub open spec fn spec_next_focus_index(old: BufferMgr) -> int {
    match old.focused {
        None => 0,
        Some(f) => if f + 1 >= old.candidates@.len() {
            0
        } else {
            f + 1
        },
    }
}

/// Where the previous focus lands: the last candidate from no focus or
/// from the first one, the preceding one otherwise.
pub open spec fn spec_prev_focus_index(old: BufferMgr) -> int {
    match old.focused {
        None => old.candidates@.len() - 1,
        Some(f) => if f == 0 {
            old.candidates@.len() - 1
        } else {
            f - 1
        },
    }
}

/// What focusing candidate `f` leaves behind: the candidate list, page and
/// state move to it, and the composition is rebuilt as the focused
/// candidate's element followed by the conversion of the unconsumed raw
/// remainder. A candidate whose keys do not prefix the raw buffer replaces
/// it.
pub open spec fn spec_after_focus(old: BufferMgr, new: BufferMgr, inner: EngInner, f: int) -> bool {
    let cr = spec_elems_raw(old.candidates@[f].elems@);
    let rem = if cr.is_prefix_of(old.raw@) {
        old.raw@.skip(cr.len() as int)
    } else {
        Seq::<char>::empty()
    };
    &&& new.raw@ == cr + rem
    &&& spec_elems_raw(new.composition.elems@) == new.raw@
    &&& new.composition.elems@.len() >= 1
    &&& new.composition.elems@[0].raw_spec() == old.candidates@[f].elems@[0].raw_spec()
    &&& (old.candidates@[f].elems@[0].converted_spec() ==> new.composition.elems@[0].display_spec()
        == old.candidates@[f].elems@[0].display_spec())
    &&& (old.candidates@[f].elems@[0].converted_spec()
        ==> new.composition.elems@[0].converted_spec())
    &&& new.composition.elems@.skip(1).map_values(
        |e: BufferElementEnum| (e.raw_spec(), e.display_spec(), e.candidate_spec()),
    ) == spec_convert_all_model(
        inner.db.records@,
        inner.dict.spec_words(),
        inner.conf.khin_mode,
        rem,
    )
    &&& new.candidates@ == old.candidates@
    &&& new.focused == Some(f as usize)
    &&& new.page == f as nat / 9
    &&& new.focused_elem == Some(0usize)
    &&& new.edit_state == EditState::Selecting
}

/// What a focus-step operation leaves behind: nothing changes on an empty
/// list with an empty buffer, the state turns illegal on an empty list
/// with text waiting, and the focus moves to `f` otherwise.
pub open spec fn spec_after_focus_step(
    old: BufferMgr,
    new: BufferMgr,
    inner: EngInner,
    f: int,
) -> bool {
    if old.candidates@.len() == 0 {
        if old.raw@.len() == 0 {
            new == old
        } else {
            new == (BufferMgr { edit_state: EditState::Illegal, ..old })
        }
    } else {
        spec_after_focus(old, new, inner, f)
    }
}

impl BufferMgr {
    /// Focuses candidate `f`: the composition becomes that candidate's
    /// element followed by the conversion of the remaining raw text.
    fn focus_candidate(&mut self, inner: &EngInner, f: usize)
        requires
            spec_inner_wf(inner),
            old(self).wf(),
            f < old(self).candidates@.len(),
        ensures
            spec_after_focus(*old(self), *final(self), *inner, f as int),
            final(self).wf(),
    {
        let cand_raw = self.candidates[f].raw_text();
        let raw_len = self.raw.as_str().unicode_len();
        let cand_len = cand_raw.as_str().unicode_len();
        let remainder: String = if str_is_prefix(cand_raw.as_str(), self.raw.as_str()) {
            let r = self.raw.as_str().substring_char(cand_len, raw_len);
            proof {
                assert(r@ =~= self.raw@.skip(cand_raw@.len() as int));
            }
            r.to_owned()
        } else {
            String::new()
        };
        let mut comp = Buffer::new();
        let mut head = self.candidates[f].elems[0].clone();
        let ghost h0 = head;
        head.set_converted(true);
        proof {
            h0.lemma_with_converted(true);
            if h0.converted_spec() {
                h0.lemma_set_converted_true_identity();
            }
        }
        comp.push(head);
        let rest = convert_all(inner, remainder.as_str());
        let ghost rest_elems = rest.elems@;
        comp.append(rest);
        proof {
            assert(comp.elems@[0].raw_spec() == self.candidates@[f as int].elems@[0].raw_spec());
            assert(comp.elems@.skip(1) =~= rest_elems);
            crate::buffer::lemma_elems_raw_concat(
                seq![comp.elems@[0]],
                rest_elems,
            );
            assert(seq![comp.elems@[0]] + rest_elems =~= comp.elems@);
            assert(spec_elems_raw(seq![comp.elems@[0]]) =~= comp.elems@[0].raw_spec()) by {
                assert(seq![comp.elems@[0]].drop_last() =~= Seq::<BufferElementEnum>::empty());
                assert(spec_elems_raw(seq![comp.elems@[0]].drop_last()) =~= Seq::<char>::empty());
            }
            // the candidate's single element carries its whole raw text
            let ghost cand_elems = self.candidates@[f as int].elems@;
            assert(spec_elems_raw(cand_elems) == cand_elems[0].raw_spec()) by {
                let ce = cand_elems;
                assert(ce.drop_last() =~= Seq::<BufferElementEnum>::empty());
                assert(spec_elems_raw(ce.drop_last()) =~= Seq::<char>::empty());
                assert(ce.last() == ce[0]);
                assert(Seq::<char>::empty() + ce[0].raw_spec() =~= ce[0].raw_spec());
            }
        }
        let new_raw = cand_raw.concat(remainder.as_str());
        self.composition = comp;
        self.raw = new_raw;
        self.focused = Some(f);
        self.page = f / 9;
        self.focused_elem = Some(0);
        self.edit_state = EditState::Selecting;
    }

    /// Focuses the next candidate; with no candidates and text waiting the
    /// state turns illegal, which classic mode answers with a commit.
    pub fn focus_next_candidate(&mut self, inner: &EngInner)
        requires
            spec_inner_wf(inner),
            old(self).wf(),
        ensures
            spec_after_focus_step(
                *old(self),
                *final(self),
                *inner,
                spec_next_focus_index(*old(self)),
            ),
            final(self).wf(),
    {
        if self.candidates.len() == 0 {
            if self.raw.as_str().unicode_len() > 0 {
                self.edit_state = EditState::Illegal;
            }
            return ;
        }
        let f = match self.focused {
            None => 0,
            Some(f) => if f + 1 >= self.candidates.len() {
                0
            } else {
                f + 1
            },
        };
        self.focus_candidate(inner, f);
    }

    /// Focuses the previous candidate, wrapping to the last one.
    pub fn focus_prev_candidate(&mut self, inner: &EngInner)
        requires
            spec_inner_wf(inner),
            old(self).wf(),
        ensures
            spec_after_focus_step(
                *old(self),
                *final(self),
                *inner,
                spec_prev_focus_index(*old(self)),
            ),
            final(self).wf(),
    {
        if self.candidates.len() == 0 {
            if self.raw.as_str().unicode_len() > 0 {
                self.edit_state = EditState::Illegal;
            }
            return ;
        }
        let f = match self.focused {
            None => self.candidates.len() - 1,
            Some(f) => if f == 0 {
                self.candidates.len() - 1
            } else {
                f - 1
            },
        };
        self.focus_candidate(inner, f);
    }

    /// Turns to the next page and focuses its first candidate; the page
    /// wraps past the last one.
    pub fn show_next_page_candidate(&mut self, inner: &EngInner)
        requires
            spec_inner_wf(inner),
            old(self).wf(),
        ensures
            old(self).candidates@.len() == 0 ==> *final(self) == *old(self),
            old(self).candidates@.len() > 0 ==> spec_after_focus(
                *old(self),
                *final(self),
                *inner,
                9 * (((old(self).page + 1) as nat % spec_page_count(
                    old(self).candidates@.len(),
                )) as int),
            ),
            final(self).wf(),
    {
        let len = self.candidates.len();
        if len == 0 {
            return ;
        }
        let npages = (len - 1) / 9 + 1;
        proof {
            assert(npages as nat == spec_page_count(len as nat)) by (nonlinear_arith)
                requires
                    1 <= len,
                    npages == (len - 1) / 9 + 1,
            ;
            assert(self.page + 1 <= usize::MAX) by {
                match self.focused {
                    Some(ff) => {
                        assert(self.page == ff as nat / 9);
                        assert(self.page <= ff) by (nonlinear_arith)
                            requires
                                self.page == ff as nat / 9,
                        ;
                    },
                    None => {},
                }
            }
        }
        let page2 = (self.page + 1) % npages;
        proof {
            assert(9 * page2 < len) by (nonlinear_arith)
                requires
                    npages == (len - 1) / 9 + 1,
                    page2 < npages,
                    len >= 1,
            ;
        }
        self.focus_candidate(inner, 9 * page2);
    }

    /// Turns to the previous page and focuses its first candidate,
    /// wrapping to the last page.
    pub fn show_prev_page_candidate(&mut self, inner: &EngInner)
        requires
            spec_inner_wf(inner),
            old(self).wf(),
        ensures
            old(self).candidates@.len() == 0 ==> *final(self) == *old(self),
            old(self).candidates@.len() > 0 ==> spec_after_focus(
                *old(self),
                *final(self),
                *inner,
                9 * (if old(self).page == 0 {
                    spec_page_count(old(self).candidates@.len()) - 1
                } else {
                    old(self).page - 1
                }),
            ),
            final(self).wf(),
    {
        let len = self.candidates.len();
        if len == 0 {
            return ;
        }
        let npages = (len - 1) / 9 + 1;
        proof {
            assert(npages as nat == spec_page_count(len as nat)) by (nonlinear_arith)
                requires
                    1 <= len,
                    npages == (len - 1) / 9 + 1,
            ;
            assert(self.page < npages) by (nonlinear_arith)
                requires
                    npages == (len - 1) / 9 + 1,
                    len >= 1,
                    match self.focused {
                        Some(f) => f < len && self.page == f as nat / 9,
                        None => self.page == 0,
                    },
            ;
        }
        let page2 = if self.page == 0 {
            npages - 1
        } else {
            self.page - 1
        };
        proof {
            assert(9 * page2 < len) by (nonlinear_arith)
                requires
                    npages == (len - 1) / 9 + 1,
                    page2 < npages,
                    len >= 1,
            ;
        }
        self.focus_candidate(inner, 9 * page2);
    }

    /// Focuses the `idx`-th candidate of the current page, 1-based, as a
    /// digit key names it; indexes off the page or past the list leave
    /// everything as it is.
    pub fn focus_candidate_by_index(&mut self, inner: &EngInner, idx: usize)
        requires
            spec_inner_wf(inner),
            old(self).wf(),
        ensures
            (1 <= idx <= 9 && old(self).page * 9 + (idx - 1) < old(self).candidates@.len())
                ==> spec_after_focus(
                *old(self),
                *final(self),
                *inner,
                old(self).page * 9 + (idx - 1),
            ),
            !(1 <= idx <= 9 && old(self).page * 9 + (idx - 1) < old(self).candidates@.len())
                ==> *final(self) == *old(self),
            final(self).wf(),
    {
        if 1 <= idx && idx <= PAGE_SIZE {
            proof {
                match self.focused {
                    Some(f) => {
                        assert(self.page == f as nat / 9);
                        assert(self.page * 9 <= f) by (nonlinear_arith)
                            requires
                                self.page == f as nat / 9,
                        ;
                    },
                    None => {},
                }
            }
            let base = self.page * PAGE_SIZE;
            if base < self.candidates.len() {
                let off = idx - 1;
                if off < self.candidates.len() - base {
                    self.focus_candidate(inner, base + off);
                    return ;
                }
            }
        }
    }

    /// Whether the focused candidate is an action pseudo-candidate.
    pub fn focused_candidate_is_action(&self) -> (r: bool)
        requires
            self.wf(),
        ensures
            r == (match self.focused {
                Some(f) => self.candidates@[f as int].elems@[0].is_action_spec(),
                None => false,
            }),
    {
        match self.focused {
            Some(f) => self.candidates[f].elems[0].is_action(),
            None => false,
        }
    }

    /// Replaces the candidate list with the focused action candidate's
    /// expansion and resets page and focus; anything else stays.
    pub fn expand_candidate(&mut self, inner: &EngInner)
        requires
            spec_inner_wf(inner),
            old(self).wf(),
        ensures
            (match old(self).focused {
                Some(f) => old(self).candidates@[f as int].elems@[0].is_action_spec(),
                None => false,
            }) ==> {
                let ex = old(self).candidates@[old(self).focused.unwrap() as int].elems@[0].expansion_spec();
                &&& final(self).candidates@.len() == ex.len()
                &&& (forall|i: int|
                    0 <= i < ex.len() ==> spec_candidate_buffer(
                        #[trigger] final(self).candidates@[i],
                        ex[i],
                        inner.conf.khin_mode,
                    ))
                &&& final(self).raw == old(self).raw
                &&& final(self).composition == old(self).composition
                &&& final(self).focused is None
                &&& final(self).page == 0
                &&& final(self).focused_elem == old(self).focused_elem
                &&& final(self).edit_state == old(self).edit_state
            },
            !(match old(self).focused {
                Some(f) => old(self).candidates@[f as int].elems@[0].is_action_spec(),
                None => false,
            }) ==> *final(self) == *old(self),
            final(self).wf(),
    {
        let f = match self.focused {
            Some(f) => f,
            None => {
                return ;
            },
        };
        let expansion: Vec<crate::db::Conversion> = match &self.candidates[f].elems[0] {
            BufferElementEnum::ActionElem(a) => {
                let mut ex: Vec<crate::db::Conversion> = Vec::new();
                let mut i: usize = 0;
                while i < a.expansion.len()
                    invariant
                        i <= a.expansion@.len(),
                        ex@ == a.expansion@.take(i as int),
                    decreases a.expansion@.len() - i,
                {
                    ex.push(a.expansion[i].clone());
                    i = i + 1;
                    assert(ex@ =~= a.expansion@.take(i as int));
                }
                assert(ex@ =~= a.expansion@);
                ex
            },
            _ => {
                return ;
            },
        };
        let ghost exv = expansion@;
        let mut cands: Vec<Buffer> = Vec::new();
        let mut i: usize = 0;
        while i < expansion.len()
            invariant
                i <= expansion@.len(),
                expansion@ == exv,
                cands@.len() == i,
                forall|p: int|
                    0 <= p < i ==> spec_candidate_buffer(
                        #[trigger] cands@[p],
                        exv[p],
                        inner.conf.khin_mode,
                    ),
            decreases expansion@.len() - i,
        {
            let elem = KhiinElem::from_conversion(
                expansion[i].key_sequence.as_str(),
                &expansion[i],
                inner.conf.khin_mode(),
            );
            let mut e = BufferElementEnum::KhiinElem(elem);
            e.set_converted(true);
            let mut b = Buffer::new();
            b.push(e);
            cands.push(b);
            i = i + 1;
        }
        self.candidates = cands;
        self.focused = None;
        self.page = 0;
    }

    /// Commits the focused candidate's display text and re-seeds the
    /// composition from the unconsumed raw remainder; with no focus the
    /// whole composition is committed and the manager cleared.
    pub fn commit_candidate_and_composite_remainder(&mut self, inner: &EngInner) -> (r: String)
        requires
            spec_inner_wf(inner),
            old(self).wf(),
        ensures
            final(self).wf(),
            (match old(self).focused {
                None => {
                    &&& r@ == spec_elems_display(old(self).composition.elems@)
                    &&& final(self).is_initial()
                },
                Some(f) => {
                    let cr = spec_elems_raw(old(self).candidates@[f as int].elems@);
                    let rem = if cr.is_prefix_of(old(self).raw@) {
                        old(self).raw@.skip(cr.len() as int)
                    } else {
                        Seq::<char>::empty()
                    };
                    &&& r@ == spec_elems_display(old(self).candidates@[f as int].elems@)
                    &&& (rem.len() == 0 ==> final(self).is_initial())
                    &&& (rem.len() > 0 ==> spec_recomputed(*final(self), *inner, rem))
                },
            }),
    {
        match self.focused {
            None => {
                let text = self.composition.display_text();
                self.reset();
                text
            },
            Some(f) => {
                let text = self.candidates[f].display_text();
                let cand_raw = self.candidates[f].raw_text();
                let raw_len = self.raw.as_str().unicode_len();
                let cand_len = cand_raw.as_str().unicode_len();
                let remainder: String = if str_is_prefix(cand_raw.as_str(), self.raw.as_str()) {
                    let rr = self.raw.as_str().substring_char(cand_len, raw_len);
                    proof {
                        assert(rr@ =~= self.raw@.skip(cand_raw@.len() as int));
                    }
                    rr.to_owned()
                } else {
                    String::new()
                };
                if remainder.as_str().unicode_len() == 0 {
                    self.reset();
                } else {
                    self.recompute(inner, remainder);
                }
                text
            },
        }
    }

    /// The preedit of the current composition.
    pub fn build_preedit(&self) -> (r: Preedit)
        ensures
            r.segments@.map_values(|s: Segment| (s.status, s.value@)) == spec_segments(
                self.composition.elems@,
                match self.focused_elem {
                    Some(k) => Some(k as int),
                    None => None,
                },
            ),
            r.caret as nat == spec_elems_display(self.composition.elems@).len(),
            r.focused_caret == r.caret,
    {
        self.composition.build_preedit(self.focused_elem)
    }

    /// The candidate list as shown to the host: each candidate's display
    /// text under its index, with the current page and focus.
    pub fn get_candidates(&self) -> (r: CandidateList)
        ensures
            r.candidates@.len() == self.candidates@.len(),
            forall|i: int|
                0 <= i < r.candidates@.len() ==> (#[trigger] r.candidates@[i]).value@
                    == spec_elems_display(self.candidates@[i].elems@) && r.candidates@[i].id == i,
            r.focused == self.focused,
            r.page == self.page,
    {
        let mut out: Vec<Candidate> = Vec::new();
        let mut i: usize = 0;
        while i < self.candidates.len()
            invariant
                i <= self.candidates@.len(),
                out@.len() == i,
                forall|p: int|
                    0 <= p < i ==> (#[trigger] out@[p]).value@ == spec_elems_display(
                        self.candidates@[p].elems@,
                    ) && out@[p].id == p,
            decreases self.candidates@.len() - i,
        {
            let value = self.candidates[i].display_text();
            out.push(Candidate { id: i, value });
            i = i + 1;
        }
        CandidateList { candidates: out, focused: self.focused, page: self.page }
    }
}

/// Concatenating each element's raw text gives exactly the raw key buffer
/// the manager tracks.
pub proof fn lemma_raw_text_concatenates(bm: BufferMgr)
    requires
        bm.wf(),
    ensures
        spec_elems_raw(bm.composition.elems@) == bm.raw@,
{
}

/// After commit-all or reset the composition is empty and the edit state
/// is `Empty`.
pub proof fn lemma_cleared_manager_is_empty(bm: BufferMgr)
    requires
        bm.is_initial(),
    ensures
        bm.composition.elems@.len() == 0,
        bm.raw@.len() == 0,
        bm.candidates@.len() == 0,
        bm.edit_state == EditState::Empty,
{
}

/// Paging keeps the focused candidate on the page in view: the page start
/// is the focused index rounded down to a multiple of the page size, and
/// the displayed (1-based) page number lies between 1 and the number of
/// pages.
pub proof fn lemma_focused_page_in_view(bm: BufferMgr)
    requires
        bm.wf(),
        bm.focused is Some,
    ensures
        bm.page * 9 == (bm.focused.unwrap() as int / 9) * 9,
        1 <= bm.page + 1 <= spec_page_count(bm.candidates@.len()),
{
    let f = bm.focused.unwrap() as int;
    let n = bm.candidates@.len() as int;
    assert(f < n);
    assert(bm.page == f / 9);
    assert(f / 9 + 1 <= (n + 8) / 9) by (nonlinear_arith)
        requires
            0 <= f < n,
    ;
}

} // verus!
