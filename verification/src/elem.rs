//! Buffer elements: the tagged variants a composition is made of.
//!
//! Every element exposes three texts (raw keystrokes, composed Romanized
//! form, display form) with their character counts, and a pair of caret
//! mappings between raw and display positions. The mappings are computed
//! from the two character counts alone: positions below both counts map
//! one to one, the ends map to each other, and whatever lies between (where
//! one side is shorter, as when tone keys collapse into one diacritic or a
//! whole word into one Han character) collapses onto the end.

use vstd::prelude::*;

use crate::config::KhinMode;
use crate::db::Conversion;
use crate::syllable::compose_key_sequence;
use crate::syllable::spec_compose_key_sequence;
use crate::text::chars_to_string;
use crate::text::str_to_chars;

verus! {

/// The display caret a raw caret lands on: identity below both counts, the
/// display end from the raw end, the display end for the collapsed middle.
pub open spec fn spec_caret_of_raw(raw_len: nat, disp_len: nat, r: nat) -> nat {
    if r >= raw_len {
        disp_len
    } else if r <= disp_len {
        r
    } else {
        disp_len
    }
}

/// The raw caret a display caret lands on: the inverse of
/// `spec_caret_of_raw` on its image.
pub open spec fn spec_raw_of_caret(raw_len: nat, disp_len: nat, d: nat) -> nat {
    if d >= disp_len {
        raw_len
    } else if d <= raw_len {
        d
    } else {
        raw_len
    }
}

/// The display carets the mapping can produce.
pub open spec fn spec_valid_display_caret(raw_len: nat, disp_len: nat, d: nat) -> bool {
    d == disp_len || (d < disp_len && d < raw_len)
}

/// The raw carets that map back to themselves: the canonical positions,
/// outside any collapsed middle.
pub open spec fn spec_valid_raw_caret(raw_len: nat, disp_len: nat, r: nat) -> bool {
    r == raw_len || (r < raw_len && r < disp_len)
}

/// The two caret mappings are mutual inverses on the valid positions; on an
/// element whose raw and display forms are equally long, every position up
/// to the length is valid on both sides.
pub proof fn lemma_caret_mappings_mutually_inverse(raw_len: nat, disp_len: nat, c: nat)
    ensures
        spec_valid_display_caret(raw_len, disp_len, c) ==> spec_caret_of_raw(
            raw_len,
            disp_len,
            spec_raw_of_caret(raw_len, disp_len, c),
        ) == c,
        spec_valid_raw_caret(raw_len, disp_len, c) ==> spec_raw_of_caret(
            raw_len,
            disp_len,
            spec_caret_of_raw(raw_len, disp_len, c),
        ) == c,
        raw_len == disp_len && c <= raw_len ==> spec_valid_display_caret(raw_len, disp_len, c)
            && spec_valid_raw_caret(raw_len, disp_len, c),
{
}

/// Computes `spec_caret_of_raw`.
pub fn caret_of_raw(raw_len: usize, disp_len: usize, r: usize) -> (d: usize)
    ensures
        d as nat == spec_caret_of_raw(raw_len as nat, disp_len as nat, r as nat),
{
    if r >= raw_len {
        disp_len
    } else if r <= disp_len {
        r
    } else {
        disp_len
    }
}

/// Computes `spec_raw_of_caret`.
pub fn raw_of_caret(raw_len: usize, disp_len: usize, d: usize) -> (r: usize)
    ensures
        r as nat == spec_raw_of_caret(raw_len as nat, disp_len as nat, d as nat),
{
    if d >= disp_len {
        raw_len
    } else if d <= raw_len {
        d
    } else {
        raw_len
    }
}


/// The shared interface of buffer elements: the three texts and their
/// lengths, the caret mappings, and the conversion flags.
pub trait BufferElement: Sized {
    /// The raw keystrokes of the element.
    spec fn raw_spec(&self) -> Seq<char>;

    /// The composed Romanized form of the element.
    spec fn composed_spec(&self) -> Seq<char>;

    /// The display form of the element.
    spec fn display_spec(&self) -> Seq<char>;

    /// Whether the element has been converted.
    spec fn converted_spec(&self) -> bool;

    /// Whether the element is selected.
    spec fn selected_spec(&self) -> bool;

    /// The source conversion, for converted units.
    spec fn candidate_spec(&self) -> Option<Conversion>;

    /// The element with its converted flag set to `b`.
    spec fn with_converted_spec(&self, b: bool) -> Self;

    fn raw_text(&self) -> (r: String)
        ensures
            r@ == self.raw_spec(),
    ;

    fn raw_char_count(&self) -> (r: usize)
        ensures
            r as nat == self.raw_spec().len(),
    ;

    fn composed_text(&self) -> (r: String)
        ensures
            r@ == self.composed_spec(),
    ;

    fn composed_char_count(&self) -> (r: usize)
        ensures
            r as nat == self.composed_spec().len(),
    ;

    fn display_text(&self) -> (r: String)
        ensures
            r@ == self.display_spec(),
    ;

    fn display_char_count(&self) -> (r: usize)
        ensures
            r as nat == self.display_spec().len(),
    ;

    fn raw_caret_from(&self, caret: usize) -> (r: usize)
        ensures
            r as nat == spec_raw_of_caret(
                self.raw_spec().len(),
                self.display_spec().len(),
                caret as nat,
            ),
    ;

    fn caret_from(&self, raw_caret: usize) -> (r: usize)
        ensures
            r as nat == spec_caret_of_raw(
                self.raw_spec().len(),
                self.display_spec().len(),
                raw_caret as nat,
            ),
    ;

    fn set_converted(&mut self, converted: bool)
        ensures
            *final(self) == old(self).with_converted_spec(converted),
    ;

    fn is_converted(&self) -> (r: bool)
        ensures
            r == self.converted_spec(),
    ;

    fn is_selected(&self) -> (r: bool)
        ensures
            r == self.selected_spec(),
    ;

    /// Part of the element interface; no variant reacts to it.
    fn set_khin(&self);

    fn candidate(&self) -> (r: Option<&Conversion>)
        ensures
            r matches Some(c) ==> self.candidate_spec() == Some(*c),
            r is None ==> self.candidate_spec() is None,
    ;
}

/// For every element, mapping a valid display caret to the raw side and
/// back gives it unchanged, and likewise from a valid raw caret; on an
/// element whose raw and display forms are equally long (as for a plain
/// run), every position is valid both ways.
pub proof fn lemma_element_caret_round_trip(e: &BufferElementEnum, c: nat)
    ensures
        spec_valid_display_caret(e.raw_spec().len(), e.display_spec().len(), c)
            ==> spec_caret_of_raw(
            e.raw_spec().len(),
            e.display_spec().len(),
            spec_raw_of_caret(e.raw_spec().len(), e.display_spec().len(), c),
        ) == c,
        spec_valid_raw_caret(e.raw_spec().len(), e.display_spec().len(), c)
            ==> spec_raw_of_caret(
            e.raw_spec().len(),
            e.display_spec().len(),
            spec_caret_of_raw(e.raw_spec().len(), e.display_spec().len(), c),
        ) == c,
        e.raw_spec().len() == e.display_spec().len() && c <= e.raw_spec().len()
            ==> spec_valid_display_caret(e.raw_spec().len(), e.display_spec().len(), c)
            && spec_valid_raw_caret(e.raw_spec().len(), e.display_spec().len(), c),
{
    lemma_caret_mappings_mutually_inverse(e.raw_spec().len(), e.display_spec().len(), c);
}

/// A plain, unconverted run of characters: raw, composed and display forms
/// are all the same text.
#[derive(Debug, PartialEq, Eq)]
pub struct StringElem {
    pub value: String,
    pub converted: bool,
    pub selected: bool,
}

impl Clone for StringElem {
    fn clone(&self) -> (r: Self)
        ensures
            r == *self,
    {
        StringElem { value: self.value.clone(), converted: self.converted, selected: self.selected }
    }
}

impl StringElem {
    /// A plain element over the given text, not converted, not selected.
    pub fn from_str(value: &str) -> (r: StringElem)
        ensures
            r.value@ == value@,
            !r.converted,
            !r.selected,
    {
        StringElem { value: value.to_owned(), converted: false, selected: false }
    }

    /// Inserts a character at character position `idx`.
    pub fn insert(&mut self, idx: usize, ch: char)
        requires
            idx <= old(self).value@.len(),
        ensures
            final(self).value@ == old(self).value@.insert(idx as int, ch),
            final(self).converted == old(self).converted,
            final(self).selected == old(self).selected,
    {
        let mut chars = str_to_chars(self.value.as_str());
        chars.insert(idx, ch);
        self.value = chars_to_string(&chars);
    }

    /// Erases the character at character position `idx`.
    pub fn erase(&mut self, idx: usize)
        requires
            idx < old(self).value@.len(),
        ensures
            final(self).value@ == old(self).value@.remove(idx as int),
            final(self).converted == old(self).converted,
            final(self).selected == old(self).selected,
    {
        let mut chars = str_to_chars(self.value.as_str());
        chars.remove(idx);
        self.value = chars_to_string(&chars);
    }

    /// The length of the text in bytes, as the raw buffer stores it.
    pub fn raw_len(&self) -> (r: usize)
        ensures
            r == vstd::utf8::encode_utf8(self.value@).len() as usize,
    {
        self.value.as_str().len()
    }
}


impl BufferElement for StringElem {
    open spec fn raw_spec(&self) -> Seq<char> {
        self.value@
    }

    open spec fn composed_spec(&self) -> Seq<char> {
        self.value@
    }

    open spec fn display_spec(&self) -> Seq<char> {
        self.value@
    }

    open spec fn converted_spec(&self) -> bool {
        self.converted
    }

    open spec fn selected_spec(&self) -> bool {
        self.selected
    }

    open spec fn candidate_spec(&self) -> Option<Conversion> {
        None
    }

    open spec fn with_converted_spec(&self, b: bool) -> StringElem {
        StringElem { converted: b, ..*self }
    }

    fn raw_text(&self) -> (r: String) {
        self.value.clone()
    }

    fn raw_char_count(&self) -> (r: usize) {
        self.value.as_str().unicode_len()
    }

    fn composed_text(&self) -> (r: String) {
        self.value.clone()
    }

    fn composed_char_count(&self) -> (r: usize) {
        self.value.as_str().unicode_len()
    }

    fn display_text(&self) -> (r: String) {
        self.value.clone()
    }

    fn display_char_count(&self) -> (r: usize) {
        self.value.as_str().unicode_len()
    }

    fn raw_caret_from(&self, caret: usize) -> (r: usize) {
        raw_of_caret(self.value.as_str().unicode_len(), self.value.as_str().unicode_len(), caret)
    }

    fn caret_from(&self, raw_caret: usize) -> (r: usize) {
        caret_of_raw(
            self.value.as_str().unicode_len(),
            self.value.as_str().unicode_len(),
            raw_caret,
        )
    }

    fn set_converted(&mut self, converted: bool) {
        self.converted = converted;
    }

    fn is_converted(&self) -> (r: bool) {
        self.converted
    }

    fn is_selected(&self) -> (r: bool) {
        self.selected
    }

    fn set_khin(&self) {
    }

    fn candidate(&self) -> (r: Option<&Conversion>) {
        None
    }
}

impl<'a> From<&'a str> for StringElem {
    fn from(value: &'a str) -> (r: Self)
        ensures
            r.value@ == value@,
            !r.converted,
            !r.selected,
    {
        StringElem::from_str(value)
    }
}

impl<'a> vstd::std_specs::convert::FromSpecImpl<&'a str> for StringElem {
    open spec fn obeys_from_spec() -> bool {
        false
    }

    open spec fn from_spec(v: &'a str) -> Self {
        arbitrary()
    }
}

/// A converted unit: the key sequence it was typed as, its composed
/// Romanized form, the display form its conversion carries, and the source
/// conversion record.
#[derive(Debug, PartialEq, Eq)]
pub struct KhiinElem {
    pub raw: String,
    pub composed: String,
    pub converted_form: String,
    pub converted: bool,
    pub selected: bool,
    pub source: Conversion,
}

impl Clone for KhiinElem {
    fn clone(&self) -> (r: Self)
        ensures
            r == *self,
    {
        KhiinElem {
            raw: self.raw.clone(),
            composed: self.composed.clone(),
            converted_form: self.converted_form.clone(),
            converted: self.converted,
            selected: self.selected,
            source: self.source.clone(),
        }
    }
}

impl KhiinElem {
    /// Builds a converted unit from a key sequence and its conversion
    /// record: the composed form gets its tone diacritics, the display form
    /// is the record's own.
    pub fn from_conversion(raw: &str, conv: &Conversion, khin_mode: KhinMode) -> (r: KhiinElem)
        ensures
            r.raw@ == raw@,
            r.composed@ == spec_compose_key_sequence(raw@, khin_mode),
            r.converted_form@ == conv.spec_display(),
            !r.converted,
            !r.selected,
            r.source == *conv,
    {
        KhiinElem {
            raw: raw.to_owned(),
            composed: compose_key_sequence(raw, khin_mode),
            converted_form: conv.display().clone(),
            converted: false,
            selected: false,
            source: conv.clone(),
        }
    }
}

/// A spacer between converted units: invisible to the raw buffer, a single
/// space in the composed and display forms.
#[derive(Debug, Clone, PartialEq, Eq, Structural)]
pub struct Spacer {
}

/// A pseudo-candidate that expands into more candidates instead of
/// committing text: its label, and the conversions it expands into.
#[derive(Debug, PartialEq, Eq)]
pub struct ActionElem {
    pub text: String,
    pub expansion: Vec<Conversion>,
    pub selected: bool,
}

impl Clone for ActionElem {
    fn clone(&self) -> (r: Self)
        ensures
            r.text == self.text,
            r.expansion@ == self.expansion@,
            r.selected == self.selected,
    {
        let mut expansion: Vec<Conversion> = Vec::new();
        let mut i: usize = 0;
        while i < self.expansion.len()
            invariant
                i <= self.expansion@.len(),
                expansion@ == self.expansion@.take(i as int),
            decreases self.expansion@.len() - i,
        {
            expansion.push(self.expansion[i].clone());
            i = i + 1;
            assert(expansion@ =~= self.expansion@.take(i as int));
        }
        assert(expansion@ =~= self.expansion@);
        ActionElem { text: self.text.clone(), expansion, selected: self.selected }
    }
}

/// One element of a composition buffer.
#[derive(Debug, PartialEq, Eq)]
pub enum BufferElementEnum {
    StringElem(StringElem),
    KhiinElem(KhiinElem),
    Spacer(Spacer),
    ActionElem(ActionElem),
}

impl Clone for BufferElementEnum {
    fn clone(&self) -> (r: Self)
        ensures
            r.raw_spec() == self.raw_spec(),
            r.composed_spec() == self.composed_spec(),
            r.display_spec() == self.display_spec(),
            r.converted_spec() == self.converted_spec(),
            r.selected_spec() == self.selected_spec(),
            r.candidate_spec() == self.candidate_spec(),
            r.is_action_spec() == self.is_action_spec(),
            r.expansion_spec() == self.expansion_spec(),
    {
        match self {
            BufferElementEnum::StringElem(e) => BufferElementEnum::StringElem(e.clone()),
            BufferElementEnum::KhiinElem(e) => BufferElementEnum::KhiinElem(e.clone()),
            BufferElementEnum::Spacer(e) => BufferElementEnum::Spacer(Spacer {  }),
            BufferElementEnum::ActionElem(e) => BufferElementEnum::ActionElem(e.clone()),
        }
    }
}

impl BufferElementEnum {
    /// Whether the element is an action pseudo-candidate.
    pub open spec fn is_action_spec(&self) -> bool {
        self is ActionElem
    }

    /// The conversions an action pseudo-candidate expands into.
    pub open spec fn expansion_spec(&self) -> Seq<Conversion> {
        match self {
            BufferElementEnum::ActionElem(e) => e.expansion@,
            _ => Seq::empty(),
        }
    }

    /// Whether the element is an action pseudo-candidate.
    pub fn is_action(&self) -> (r: bool)
        ensures
            r == self.is_action_spec(),
    {
        match self {
            BufferElementEnum::ActionElem(_) => true,
            _ => false,
        }
    }

    /// Setting the converted flag of an already converted element changes
    /// nothing.
    pub proof fn lemma_set_converted_true_identity(&self)
        requires
            self.converted_spec(),
        ensures
            self.with_converted_spec(true) == *self,
    {
    }

    /// Setting the converted flag keeps the raw and composed texts, the
    /// selection flag and the source conversion.
    pub proof fn lemma_with_converted(&self, b: bool)
        ensures
            self.with_converted_spec(b).raw_spec() == self.raw_spec(),
            self.with_converted_spec(b).composed_spec() == self.composed_spec(),
            self.with_converted_spec(b).selected_spec() == self.selected_spec(),
            self.with_converted_spec(b).candidate_spec() == self.candidate_spec(),
            self.with_converted_spec(b).is_action_spec() == self.is_action_spec(),
            !(self is Spacer) && !(self is ActionElem) ==> self.with_converted_spec(
                b,
            ).converted_spec() == b,
    {
    }
}

impl BufferElement for BufferElementEnum {
    /// The raw keystrokes of the element.
    open spec fn raw_spec(&self) -> Seq<char> {
        match self {
            BufferElementEnum::StringElem(e) => e.value@,
            BufferElementEnum::KhiinElem(e) => e.raw@,
            BufferElementEnum::Spacer(_) => Seq::empty(),
            BufferElementEnum::ActionElem(_) => Seq::empty(),
        }
    }

    /// The composed Romanized form of the element.
    open spec fn composed_spec(&self) -> Seq<char> {
        match self {
            BufferElementEnum::StringElem(e) => e.value@,
            BufferElementEnum::KhiinElem(e) => e.composed@,
            BufferElementEnum::Spacer(_) => seq![' '],
            BufferElementEnum::ActionElem(e) => e.text@,
        }
    }

    /// The display form: the conversion's form once converted, the
    /// composed form while still composing.
    open spec fn display_spec(&self) -> Seq<char> {
        match self {
            BufferElementEnum::StringElem(e) => e.value@,
            BufferElementEnum::KhiinElem(e) => if e.converted {
                e.converted_form@
            } else {
                e.composed@
            },
            BufferElementEnum::Spacer(_) => seq![' '],
            BufferElementEnum::ActionElem(e) => e.text@,
        }
    }

    /// Whether the element has been converted.
    open spec fn converted_spec(&self) -> bool {
        match self {
            BufferElementEnum::StringElem(e) => e.converted,
            BufferElementEnum::KhiinElem(e) => e.converted,
            BufferElementEnum::Spacer(_) => false,
            BufferElementEnum::ActionElem(_) => false,
        }
    }

    /// Whether the element is selected.
    open spec fn selected_spec(&self) -> bool {
        match self {
            BufferElementEnum::StringElem(e) => e.selected,
            BufferElementEnum::KhiinElem(e) => e.selected,
            BufferElementEnum::Spacer(_) => false,
            BufferElementEnum::ActionElem(e) => e.selected,
        }
    }

    /// The source conversion, for converted units.
    open spec fn candidate_spec(&self) -> Option<Conversion> {
        match self {
            BufferElementEnum::KhiinElem(e) => Some(e.source),
            _ => None,
        }
    }

    /// The element with its converted flag set to `b`; spacers and action
    /// elements carry no such flag and stay as they are.
    open spec fn with_converted_spec(&self, b: bool) -> BufferElementEnum {
        match self {
            BufferElementEnum::StringElem(e) => BufferElementEnum::StringElem(
                StringElem { converted: b, ..*e },
            ),
            BufferElementEnum::KhiinElem(e) => BufferElementEnum::KhiinElem(
                KhiinElem { converted: b, ..*e },
            ),
            BufferElementEnum::Spacer(e) => BufferElementEnum::Spacer(*e),
            BufferElementEnum::ActionElem(e) => *self,
        }
    }

    fn raw_text(&self) -> (r: String) {
        match self {
            BufferElementEnum::StringElem(e) => e.value.clone(),
            BufferElementEnum::KhiinElem(e) => e.raw.clone(),
            BufferElementEnum::Spacer(_) => String::new(),
            BufferElementEnum::ActionElem(_) => String::new(),
        }
    }

    fn raw_char_count(&self) -> (r: usize) {
        match self {
            BufferElementEnum::StringElem(e) => e.value.as_str().unicode_len(),
            BufferElementEnum::KhiinElem(e) => e.raw.as_str().unicode_len(),
            BufferElementEnum::Spacer(_) => 0,
            BufferElementEnum::ActionElem(_) => 0,
        }
    }

    fn composed_text(&self) -> (r: String) {
        match self {
            BufferElementEnum::StringElem(e) => e.value.clone(),
            BufferElementEnum::KhiinElem(e) => e.composed.clone(),
            BufferElementEnum::Spacer(_) => space_string(),
            BufferElementEnum::ActionElem(e) => e.text.clone(),
        }
    }

    fn composed_char_count(&self) -> (r: usize) {
        match self {
            BufferElementEnum::StringElem(e) => e.value.as_str().unicode_len(),
            BufferElementEnum::KhiinElem(e) => e.composed.as_str().unicode_len(),
            BufferElementEnum::Spacer(_) => {
                proof {
                    reveal_strlit(" ");
                }
                1
            },
            BufferElementEnum::ActionElem(e) => e.text.as_str().unicode_len(),
        }
    }

    fn display_text(&self) -> (r: String) {
        match self {
            BufferElementEnum::StringElem(e) => e.value.clone(),
            BufferElementEnum::KhiinElem(e) => if e.converted {
                e.converted_form.clone()
            } else {
                e.composed.clone()
            },
            BufferElementEnum::Spacer(_) => space_string(),
            BufferElementEnum::ActionElem(e) => e.text.clone(),
        }
    }

    fn display_char_count(&self) -> (r: usize) {
        match self {
            BufferElementEnum::StringElem(e) => e.value.as_str().unicode_len(),
            BufferElementEnum::KhiinElem(e) => if e.converted {
                e.converted_form.as_str().unicode_len()
            } else {
                e.composed.as_str().unicode_len()
            },
            BufferElementEnum::Spacer(_) => {
                proof {
                    reveal_strlit(" ");
                }
                1
            },
            BufferElementEnum::ActionElem(e) => e.text.as_str().unicode_len(),
        }
    }

    fn raw_caret_from(&self, caret: usize) -> (r: usize) {
        raw_of_caret(self.raw_char_count(), self.display_char_count(), caret)
    }

    fn caret_from(&self, raw_caret: usize) -> (r: usize) {
        caret_of_raw(self.raw_char_count(), self.display_char_count(), raw_caret)
    }

    fn set_converted(&mut self, converted: bool) {
        match self {
            BufferElementEnum::StringElem(e) => {
                e.converted = converted;
            },
            BufferElementEnum::KhiinElem(e) => {
                e.converted = converted;
            },
            BufferElementEnum::Spacer(_) => {},
            BufferElementEnum::ActionElem(_) => {},
        }
    }

    fn is_converted(&self) -> (r: bool) {
        match self {
            BufferElementEnum::StringElem(e) => e.converted,
            BufferElementEnum::KhiinElem(e) => e.converted,
            BufferElementEnum::Spacer(_) => false,
            BufferElementEnum::ActionElem(_) => false,
        }
    }

    fn is_selected(&self) -> (r: bool) {
        match self {
            BufferElementEnum::StringElem(e) => e.selected,
            BufferElementEnum::KhiinElem(e) => e.selected,
            BufferElementEnum::Spacer(_) => false,
            BufferElementEnum::ActionElem(e) => e.selected,
        }
    }

    fn set_khin(&self) {
    }

    fn candidate(&self) -> (r: Option<&Conversion>) {
        match self {
            BufferElementEnum::KhiinElem(e) => Some(&e.source),
            _ => None,
        }
    }
}

/// A single space.
fn space_string() -> (r: String)
    ensures
        r@ == seq![' '],
{
    proof {
        reveal_strlit(" ");
    }
    let r = " ".to_owned();
    proof {
        assert(r@ =~= seq![' ']);
    }
    r
}

} // verus!
