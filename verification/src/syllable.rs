//! One romanized syllable: its raw keystrokes, its body, its tone and its
//! khin marker, with composing (placing the tone diacritic on the nucleus
//! vowel) and parsing (reading a display or key form back).

use vstd::prelude::*;

use crate::config::KhinMode;
use crate::config::ToneMode;
use crate::text::chars_to_string;
use vstd::string::StringExecFns;
use crate::text::str_to_chars;
use crate::tone::spec_is_tone_mark;
use crate::tone::spec_tone_from_mark;
use crate::tone::spec_tone_mark;
use crate::tone::Tone;

verus! {

/// The khin marker as it is rendered at the head of a composed syllable.
pub const KHIN_DOT: char = '\u{00B7}';

/// A lower-case ASCII letter: the only characters a syllable body holds.
pub open spec fn spec_is_letter(c: char) -> bool {
    'a' <= c && c <= 'z'
}

/// Whether the body ends in a stop coda (p, t, k or h), which carries the
/// checked tones 4 and 8.
pub open spec fn spec_stop_coda(s: Seq<char>) -> bool {
    s.len() > 0 && (s.last() == 'p' || s.last() == 't' || s.last() == 'k' || s.last() == 'h')
}

/// The first position at or after `i` where `c` occurs, or the length if it
/// does not.
pub open spec fn spec_find_char(s: Seq<char>, c: char, i: nat) -> nat
    decreases s.len() - i,
{
    if i >= s.len() {
        s.len()
    } else if s[i as int] == c {
        i
    } else {
        spec_find_char(s, c, (i + 1) as nat)
    }
}

/// The first position at or after `i` holding a tone diacritic, or the
/// length if there is none.
pub open spec fn spec_find_mark(s: Seq<char>, i: nat) -> nat
    decreases s.len() - i,
{
    if i >= s.len() {
        s.len()
    } else if spec_is_tone_mark(s[i as int]) {
        i
    } else {
        spec_find_mark(s, (i + 1) as nat)
    }
}

/// The index of the vowel that takes the tone diacritic: the first `a` if
/// any, else the first `o`, `e`, `u`, `i`; syllabic `n` and `m` serve when
/// the body has no vowel at all.
pub open spec fn spec_nucleus(s: Seq<char>) -> Option<nat> {
    if s.contains('a') {
        Some(spec_find_char(s, 'a', 0))
    } else if s.contains('o') {
        Some(spec_find_char(s, 'o', 0))
    } else if s.contains('e') {
        Some(spec_find_char(s, 'e', 0))
    } else if s.contains('u') {
        Some(spec_find_char(s, 'u', 0))
    } else if s.contains('i') {
        Some(spec_find_char(s, 'i', 0))
    } else if s.contains('n') {
        Some(spec_find_char(s, 'n', 0))
    } else if s.contains('m') {
        Some(spec_find_char(s, 'm', 0))
    } else {
        None
    }
}

/// The khin marker rendered in front of a composed syllable.
pub open spec fn spec_khin_prefix(khin: bool, mode: KhinMode) -> Seq<char> {
    if !khin {
        Seq::empty()
    } else {
        match mode {
            KhinMode::Khinless => Seq::empty(),
            KhinMode::Dot => seq![KHIN_DOT],
            KhinMode::Hyphen => seq!['-', '-'],
        }
    }
}

/// The body with the tone's diacritic inserted after the nucleus vowel.
/// Tones without a mark, and bodies without a nucleus, stay as they are.
pub open spec fn spec_mark_body(body: Seq<char>, tone: Tone) -> Seq<char> {
    match spec_tone_mark(tone) {
        None => body,
        Some(m) => match spec_nucleus(body) {
            Some(n) => body.insert(n + 1 as int, m),
            None => body,
        },
    }
}

/// The composed (display) form of a syllable.
pub open spec fn spec_compose(body: Seq<char>, tone: Tone, khin: bool, mode: KhinMode) -> Seq<
    char,
> {
    spec_khin_prefix(khin, mode) + spec_mark_body(body, tone)
}

/// Reads a khin marker off the head of a string: a double hyphen (as it is
/// typed), a single hyphen or the middle dot (as it is rendered).
pub open spec fn spec_strip_khin(s: Seq<char>) -> (bool, Seq<char>) {
    if s.len() >= 2 && s[0] == '-' && s[1] == '-' {
        (true, s.skip(2))
    } else if s.len() >= 1 && (s[0] == KHIN_DOT || s[0] == '-') {
        (true, s.skip(1))
    } else {
        (false, s)
    }
}

/// Removes the first tone diacritic and reads its tone; a string without a
/// diacritic keeps tone 1.
pub open spec fn spec_strip_tone(s: Seq<char>) -> (Seq<char>, Tone) {
    let f = spec_find_mark(s, 0);
    if f < s.len() {
        (s.remove(f as int), spec_tone_from_mark(s[f as int]).unwrap())
    } else {
        (s, Tone::T1)
    }
}

/// The tone a trailing digit keys, if the digit keys one.
pub open spec fn spec_tone_from_digit(c: char) -> Option<Tone> {
    if c == '2' {
        Some(Tone::T2)
    } else if c == '3' {
        Some(Tone::T3)
    } else if c == '4' {
        Some(Tone::T4)
    } else if c == '5' {
        Some(Tone::T5)
    } else if c == '6' {
        Some(Tone::T6)
    } else if c == '7' {
        Some(Tone::T7)
    } else if c == '8' {
        Some(Tone::T8)
    } else if c == '9' {
        Some(Tone::T9)
    } else {
        None
    }
}

/// The digit that keys a tone in numeric mode; tones 1 and 4 are typed
/// without a digit.
pub open spec fn spec_digit_of_tone(tone: Tone) -> Option<char> {
    match tone {
        Tone::T1 => None,
        Tone::T2 => Some('2'),
        Tone::T3 => Some('3'),
        Tone::T4 => None,
        Tone::T5 => Some('5'),
        Tone::T6 => Some('6'),
        Tone::T7 => Some('7'),
        Tone::T8 => Some('8'),
        Tone::T9 => Some('9'),
    }
}

/// The Telex letter that keys a tone; tones 1 and 4 have no key.
pub open spec fn spec_telex_key_of_tone(tone: Tone, mode: ToneMode) -> Option<char> {
    match mode {
        ToneMode::Numeric => spec_digit_of_tone(tone),
        ToneMode::Telex(keys) => match tone {
            Tone::T1 => None,
            Tone::T2 => Some(keys.t2),
            Tone::T3 => Some(keys.t3),
            Tone::T4 => None,
            Tone::T5 => Some(keys.t5),
            Tone::T6 => Some(keys.t6),
            Tone::T7 => Some(keys.t7),
            Tone::T8 => Some(keys.t8),
            Tone::T9 => Some(keys.t9),
        },
    }
}

/// The canonical keystrokes that produce a syllable: the khin marker typed
/// as a double hyphen, then the body, then the tone key if the tone has one.
pub open spec fn spec_canonical_raw(
    body: Seq<char>,
    tone: Tone,
    khin: bool,
    mode: ToneMode,
) -> Seq<char> {
    let prefix: Seq<char> = if khin {
        seq!['-', '-']
    } else {
        Seq::empty()
    };
    let key: Seq<char> = match spec_telex_key_of_tone(tone, mode) {
        None => Seq::empty(),
        Some(k) => seq![k],
    };
    prefix + body + key
}

/// The mathematical content of a syllable.
pub ghost struct SylView {
    pub raw_input: Seq<char>,
    pub raw_body: Seq<char>,
    pub tone: Tone,
    pub khin: bool,
}

/// Whether the trailing character of `s` keys a tone in numeric mode: it
/// must be a tone digit, and the checked tones 4 and 8 demand a stop coda.
pub open spec fn spec_trailing_digit_tone(s: Seq<char>) -> Option<Tone> {
    if s.len() == 0 {
        None
    } else {
        match spec_tone_from_digit(s.last()) {
            None => None,
            Some(t) => if (t == Tone::T4 || t == Tone::T8) && !spec_stop_coda(s.drop_last()) {
                None
            } else {
                Some(t)
            },
        }
    }
}

/// Parses a composed or raw form back into a syllable: strip the khin
/// marker, then read the tone off the first diacritic, or off a trailing
/// tone digit in numeric mode, or infer tone 4 or 1 from the coda. The
/// reconstructed `raw_input` is the canonical key sequence.
pub open spec fn spec_parse(s: Seq<char>, mode: ToneMode) -> SylView {
    let khin = spec_strip_khin(s).0;
    let s1 = spec_strip_khin(s).1;
    let f = spec_find_mark(s1, 0);
    if f < s1.len() {
        let tone = spec_tone_from_mark(s1[f as int]).unwrap();
        let body = s1.remove(f as int);
        SylView {
            raw_input: spec_canonical_raw(body, tone, khin, mode),
            raw_body: body,
            tone,
            khin,
        }
    } else if mode is Numeric && spec_trailing_digit_tone(s1) is Some {
        let tone = spec_trailing_digit_tone(s1).unwrap();
        let body = s1.drop_last();
        SylView {
            raw_input: spec_canonical_raw(body, tone, khin, mode),
            raw_body: body,
            tone,
            khin,
        }
    } else {
        let tone = if spec_stop_coda(s1) {
            Tone::T4
        } else {
            Tone::T1
        };
        SylView {
            raw_input: spec_canonical_raw(s1, tone, khin, mode),
            raw_body: s1,
            tone,
            khin,
        }
    }
}

/// A parsed romanized syllable.
#[derive(Debug, Clone, PartialEq, Eq)]
pub struct Syllable {
    /// The keystrokes that produce the syllable.
    pub raw_input: String,
    /// The letters of the syllable, without tone key or khin marker.
    pub raw_body: String,
    pub tone: Tone,
    pub khin: bool,
}

impl View for Syllable {
    type V = SylView;

    open spec fn view(&self) -> SylView {
        SylView {
            raw_input: self.raw_input@,
            raw_body: self.raw_body@,
            tone: self.tone,
            khin: self.khin,
        }
    }
}

/// A well-formed syllable: a non-empty all-letter body with a nucleus, a
/// tone that agrees with the coda (the checked tones 4 and 8 exactly on
/// stop codas), and the canonical keystrokes recorded as its raw input.
pub open spec fn spec_well_formed(v: SylView, mode: ToneMode) -> bool {
    &&& v.raw_body.len() > 0
    &&& forall|i: int| 0 <= i < v.raw_body.len() ==> spec_is_letter(#[trigger] v.raw_body[i])
    &&& spec_nucleus(v.raw_body) is Some
    &&& (spec_stop_coda(v.raw_body) <==> (v.tone == Tone::T4 || v.tone == Tone::T8))
    &&& v.raw_input == spec_canonical_raw(v.raw_body, v.tone, v.khin, mode)
}

impl Syllable {
    /// An empty syllable with tone 1 and no khin marker.
    pub fn new() -> (r: Syllable)
        ensures
            r@.raw_input.len() == 0,
            r@.raw_body.len() == 0,
            r@.tone == Tone::T1,
            !r@.khin,
    {
        Syllable {
            raw_input: String::new(),
            raw_body: String::new(),
            tone: Tone::T1,
            khin: false,
        }
    }

    /// The composed display form: the khin marker, then the body with the
    /// tone diacritic on the nucleus vowel.
    pub fn compose(&self, khin_mode: KhinMode) -> (r: String)
        ensures
            r@ == spec_compose(self.raw_body@, self.tone, self.khin, khin_mode),
    {
        let body = str_to_chars(self.raw_body.as_str());
        let mut out: Vec<char> = Vec::new();
        if self.khin {
            match khin_mode {
                KhinMode::Khinless => {},
                KhinMode::Dot => {
                    out.push(KHIN_DOT);
                },
                KhinMode::Hyphen => {
                    out.push('-');
                    out.push('-');
                },
            }
        }
        assert(out@ =~= spec_khin_prefix(self.khin, khin_mode));
        let marked = mark_body(&body, self.tone);
        let mut i: usize = 0;
        while i < marked.len()
            invariant
                out@ == spec_khin_prefix(self.khin, khin_mode) + marked@.take(i as int),
                i <= marked@.len(),
            decreases marked@.len() - i,
        {
            out.push(marked[i]);
            i = i + 1;
            assert(out@ =~= spec_khin_prefix(self.khin, khin_mode) + marked@.take(i as int));
        }
        assert(out@ =~= spec_khin_prefix(self.khin, khin_mode) + marked@);
        chars_to_string(&out)
    }

    /// Parses a composed or raw single-syllable form.
    pub fn parse(raw: &str, tone_mode: &ToneMode) -> (r: Syllable)
        ensures
            r@ == spec_parse(raw@, *tone_mode),
    {
        let chars = str_to_chars(raw);
        parse_chars(&chars, tone_mode)
    }
}

/// Whether `c` is a lower-case ASCII letter.
pub fn is_letter(c: char) -> (r: bool)
    ensures
        r == spec_is_letter(c),
{
    'a' <= c && c <= 'z'
}

/// Whether the body ends in p, t, k or h.
pub fn stop_coda(v: &Vec<char>) -> (r: bool)
    ensures
        r == spec_stop_coda(v@),
{
    if v.len() == 0 {
        return false;
    }
    let c = v[v.len() - 1];
    c == 'p' || c == 't' || c == 'k' || c == 'h'
}

/// The first position of `c` in `v`, or the length if it does not occur.
pub fn find_char(v: &Vec<char>, c: char) -> (r: usize)
    ensures
        r == spec_find_char(v@, c, 0),
        r <= v@.len(),
{
    let mut i: usize = 0;
    while i < v.len()
        invariant
            i <= v@.len(),
            spec_find_char(v@, c, 0) == spec_find_char(v@, c, i as nat),
            forall|j: int| 0 <= j < i ==> v@[j] != c,
        decreases v@.len() - i,
    {
        if v[i] == c {
            return i;
        }
        i = i + 1;
    }
    i
}

/// The index of the nucleus vowel, if the body has one.
pub fn nucleus(v: &Vec<char>) -> (r: Option<usize>)
    ensures
        r matches Some(n) ==> spec_nucleus(v@) == Some(n as nat),
        r is None <==> spec_nucleus(v@) is None,
{
    let priorities = ['a', 'o', 'e', 'u', 'i', 'n', 'm'];
    let mut k: usize = 0;
    while k < 7
        invariant
            k <= 7,
            priorities@ =~= seq!['a', 'o', 'e', 'u', 'i', 'n', 'm'],
            forall|j: int| 0 <= j < k ==> !v@.contains(priorities@[j]),
            spec_nucleus(v@) matches Some(n) ==> exists|j: int|
                k <= j < 7 && v@.contains(priorities@[j]),
        decreases 7 - k,
    {
        let f = find_char(v, priorities[k]);
        if f < v.len() {
            proof {
                lemma_find_char(v@, priorities@[k as int], 0);
                assert(v@.contains(priorities@[k as int]));
            }
            return Some(f);
        }
        proof {
            lemma_find_char(v@, priorities@[k as int], 0);
            if v@.contains(priorities@[k as int]) {
                assert(spec_find_char(v@, priorities@[k as int], 0) < v@.len());
            }
        }
        k = k + 1;
    }
    proof {
        assert(!v@.contains('a') && !v@.contains('o') && !v@.contains('e') && !v@.contains('u')
            && !v@.contains('i') && !v@.contains('n') && !v@.contains('m'));
    }
    None
}

/// The body with the tone diacritic placed after the nucleus vowel.
pub fn mark_body(body: &Vec<char>, tone: Tone) -> (r: Vec<char>)
    ensures
        r@ == spec_mark_body(body@, tone),
{
    let m = tone.mark();
    match m {
        None => {
            let r = body.clone();
            assert(r@ =~= spec_mark_body(body@, tone));
            r
        },
        Some(mark) => {
            match nucleus(body) {
                None => {
                    let r = body.clone();
                    assert(r@ =~= spec_mark_body(body@, tone));
                    r
                },
                Some(n) => {
                    proof {
                        lemma_nucleus(body@);
                    }
                    let mut r = body.clone();
                    r.insert(n + 1, mark);
                    assert(r@ =~= spec_mark_body(body@, tone));
                    r
                },
            }
        },
    }
}

/// Parses a syllable out of a vector of characters.
fn parse_chars(chars: &Vec<char>, tone_mode: &ToneMode) -> (r: Syllable)
    ensures
        r@ == spec_parse(chars@, *tone_mode),
{
    // strip the khin marker
    let mut khin = false;
    let mut start: usize = 0;
    if chars.len() >= 2 && chars[0] == '-' && chars[1] == '-' {
        khin = true;
        start = 2;
    } else if chars.len() >= 1 && (chars[0] == KHIN_DOT || chars[0] == '-') {
        khin = true;
        start = 1;
    }
    let mut s1: Vec<char> = Vec::new();
    let mut i: usize = start;
    while i < chars.len()
        invariant
            start <= i <= chars@.len(),
            s1@ == chars@.subrange(start as int, i as int),
        decreases chars@.len() - i,
    {
        s1.push(chars[i]);
        i = i + 1;
        assert(s1@ =~= chars@.subrange(start as int, i as int));
    }
    proof {
        assert(s1@ =~= spec_strip_khin(chars@).1);
        assert(khin == spec_strip_khin(chars@).0);
    }

    // read the tone off the first diacritic
    let f = find_mark(&s1);
    if f < s1.len() {
        proof {
            lemma_find_mark(s1@, 0);
        }
        let tone_opt = Tone::from_mark(s1[f]);
        assert(tone_opt is Some);
        let tone = tone_opt.unwrap();
        let mut body = s1;
        body.remove(f);
        proof {
            assert(body@ =~= spec_parse(chars@, *tone_mode).raw_body);
        }
        return syllable_from_parts(&body, tone, khin, tone_mode);
    }

    // numeric mode: a trailing tone digit
    if let ToneMode::Numeric = tone_mode {
        if let Some(tone) = trailing_digit_tone(&s1) {
            let mut body = s1;
            body.pop();
            proof {
                assert(body@ =~= spec_parse(chars@, *tone_mode).raw_body);
            }
            return syllable_from_parts(&body, tone, khin, tone_mode);
        }
    }

    // no tone key: the coda decides between tones 4 and 1
    let tone = if stop_coda(&s1) {
        Tone::T4
    } else {
        Tone::T1
    };
    syllable_from_parts(&s1, tone, khin, tone_mode)
}

/// The tone keyed by a trailing digit, if the last character keys one.
fn trailing_digit_tone(v: &Vec<char>) -> (r: Option<Tone>)
    ensures
        r == spec_trailing_digit_tone(v@),
{
    if v.len() == 0 {
        return None;
    }
    let c = v[v.len() - 1];
    let t = if c == '2' {
        Some(Tone::T2)
    } else if c == '3' {
        Some(Tone::T3)
    } else if c == '4' {
        Some(Tone::T4)
    } else if c == '5' {
        Some(Tone::T5)
    } else if c == '6' {
        Some(Tone::T6)
    } else if c == '7' {
        Some(Tone::T7)
    } else if c == '8' {
        Some(Tone::T8)
    } else if c == '9' {
        Some(Tone::T9)
    } else {
        None
    };
    match t {
        None => None,
        Some(tone) => {
            if tone == Tone::T4 || tone == Tone::T8 {
                let mut body = v.clone();
                body.pop();
                assert(body@ =~= v@.drop_last());
                if !stop_coda(&body) {
                    return None;
                }
            }
            Some(tone)
        },
    }
}

/// The first position holding a tone diacritic, or the length.
pub fn find_mark(v: &Vec<char>) -> (r: usize)
    ensures
        r == spec_find_mark(v@, 0),
        r <= v@.len(),
{
    let mut i: usize = 0;
    while i < v.len()
        invariant
            i <= v@.len(),
            spec_find_mark(v@, 0) == spec_find_mark(v@, i as nat),
            forall|j: int| 0 <= j < i ==> !spec_is_tone_mark(v@[j]),
        decreases v@.len() - i,
    {
        if Tone::from_mark(v[i]).is_some() {
            return i;
        }
        i = i + 1;
    }
    i
}

/// Builds the syllable out of its parsed parts, reconstructing the
/// canonical raw keystrokes.
fn syllable_from_parts(body: &Vec<char>, tone: Tone, khin: bool, mode: &ToneMode) -> (r: Syllable)
    ensures
        r@.raw_body == body@,
        r@.tone == tone,
        r@.khin == khin,
        r@.raw_input == spec_canonical_raw(body@, tone, khin, *mode),
{
    let mut raw: Vec<char> = Vec::new();
    if khin {
        raw.push('-');
        raw.push('-');
    }
    let mut i: usize = 0;
    while i < body.len()
        invariant
            i <= body@.len(),
            raw@ == (if khin {
                seq!['-', '-']
            } else {
                Seq::<char>::empty()
            }) + body@.take(i as int),
        decreases body@.len() - i,
    {
        raw.push(body[i]);
        i = i + 1;
        assert(raw@ =~= (if khin {
            seq!['-', '-']
        } else {
            Seq::<char>::empty()
        }) + body@.take(i as int));
    }
    let key = tone_key(tone, mode);
    match key {
        None => {},
        Some(k) => {
            raw.push(k);
        },
    }
    assert(raw@ =~= spec_canonical_raw(body@, tone, khin, *mode));
    Syllable {
        raw_input: chars_to_string(&raw),
        raw_body: chars_to_string(body),
        tone,
        khin,
    }
}

/// The key that writes a tone under the given tone mode, if the tone has
/// one.
pub fn tone_key(tone: Tone, mode: &ToneMode) -> (r: Option<char>)
    ensures
        r == spec_telex_key_of_tone(tone, *mode),
{
    match mode {
        ToneMode::Numeric => match tone {
            Tone::T1 => None,
            Tone::T2 => Some('2'),
            Tone::T3 => Some('3'),
            Tone::T4 => None,
            Tone::T5 => Some('5'),
            Tone::T6 => Some('6'),
            Tone::T7 => Some('7'),
            Tone::T8 => Some('8'),
            Tone::T9 => Some('9'),
        },
        ToneMode::Telex(keys) => match tone {
            Tone::T1 => None,
            Tone::T2 => Some(keys.t2),
            Tone::T3 => Some(keys.t3),
            Tone::T4 => None,
            Tone::T5 => Some(keys.t5),
            Tone::T6 => Some(keys.t6),
            Tone::T7 => Some(keys.t7),
            Tone::T8 => Some(keys.t8),
            Tone::T9 => Some(keys.t9),
        },
    }
}

/// Whether the string holds a tone diacritic anywhere.
pub fn has_tone_mark(s: &str) -> (r: bool)
    ensures
        r == (spec_find_mark(s@, 0) < s@.len()),
{
    let chars = str_to_chars(s);
    let f = find_mark(&chars);
    f < chars.len()
}

/// Removes the first tone diacritic and returns the stripped string with
/// the tone it wrote; a string without a diacritic comes back unchanged
/// with tone 1.
pub fn strip_tone_diacritic(s: &str) -> (r: (String, Tone))
    ensures
        (r.0@, r.1) == spec_strip_tone(s@),
{
    let mut chars = str_to_chars(s);
    let f = find_mark(&chars);
    if f < chars.len() {
        proof {
            lemma_find_mark(chars@, 0);
        }
        let tone_opt = Tone::from_mark(chars[f]);
        assert(tone_opt is Some);
        let tone = tone_opt.unwrap();
        chars.remove(f);
        (chars_to_string(&chars), tone)
    } else {
        (chars_to_string(&chars), Tone::T1)
    }
}

/// The first position of `c` in `v` at or after `start`, or the length.
pub fn find_char_from(v: &Vec<char>, c: char, start: usize) -> (r: usize)
    requires
        start <= v@.len(),
    ensures
        r as nat == spec_find_char(v@, c, start as nat),
        start <= r <= v@.len(),
{
    let mut i: usize = start;
    while i < v.len()
        invariant
            start <= i <= v@.len(),
            spec_find_char(v@, c, start as nat) == spec_find_char(v@, c, i as nat),
        decreases v@.len() - i,
    {
        if v[i] == c {
            return i;
        }
        i = i + 1;
    }
    i
}

/// The composed form of one hyphen-separated part of a key sequence: parse
/// it as a numeric-keyed syllable and compose that.
pub open spec fn spec_compose_part(p: Seq<char>, khin_mode: KhinMode) -> Seq<char> {
    let v = spec_parse(p, ToneMode::Numeric);
    spec_compose(v.raw_body, v.tone, v.khin, khin_mode)
}

/// The composed form of a whole key sequence: each hyphen-separated part
/// composed, joined by hyphens again. A double hyphen at the head is a khin
/// marker and stays with its syllable.
pub open spec fn spec_compose_key_sequence(s: Seq<char>, khin_mode: KhinMode) -> Seq<char>
    decreases s.len(),
{
    let start: nat = if s.len() >= 2 && s[0] == '-' && s[1] == '-' {
        2
    } else {
        0
    };
    let f = spec_find_char(s, '-', start);
    if f >= s.len() {
        spec_compose_part(s, khin_mode)
    } else {
        spec_compose_part(s.take(f as int), khin_mode) + seq!['-'] + spec_compose_key_sequence(
            s.skip(f as int + 1),
            khin_mode,
        )
    }
}

/// Composes a whole key sequence for display: each hyphen-separated part
/// gets its tone diacritic, and the hyphens are kept.
#[verifier::rlimit(50)]
pub fn compose_key_sequence(raw: &str, khin_mode: KhinMode) -> (r: String)
    ensures
        r@ == spec_compose_key_sequence(raw@, khin_mode),
    decreases raw@.len(),
{
    let chars = str_to_chars(raw);
    let n = chars.len();
    let start: usize = if n >= 2 && chars[0] == '-' && chars[1] == '-' {
        2
    } else {
        0
    };
    let f = find_char_from(&chars, '-', start);
    if f >= n {
        let syl = Syllable::parse(raw, &ToneMode::Numeric);
        syl.compose(khin_mode)
    } else {
        let head = raw.substring_char(0, f);
        proof {
            assert(head@ =~= raw@.take(f as int));
        }
        let syl = Syllable::parse(head, &ToneMode::Numeric);
        let mut out = syl.compose(khin_mode);
        let rest = raw.substring_char(f + 1, n);
        proof {
            assert(rest@ =~= raw@.skip(f as int + 1));
        }
        let tail = compose_key_sequence(rest, khin_mode);
        out.push('-');
        out.append(tail.as_str());
        proof {
            assert(out@ == spec_compose_part(raw@.take(f as int), khin_mode).push('-') + tail@);
            assert(spec_compose_part(raw@.take(f as int), khin_mode).push('-')
                =~= spec_compose_part(raw@.take(f as int), khin_mode) + seq!['-']);
            assert(out@ =~= spec_compose_part(raw@.take(f as int), khin_mode) + seq!['-']
                + spec_compose_key_sequence(raw@.skip(f as int + 1), khin_mode));
        }
        out
    }
}

/// `spec_find_char` finds the first occurrence: everything before it
/// differs from `c`, and it lands on `c` exactly when `c` occurs at all.
pub proof fn lemma_find_char(s: Seq<char>, c: char, i: nat)
    requires
        i <= s.len(),
    ensures
        i <= spec_find_char(s, c, i) <= s.len(),
        spec_find_char(s, c, i) < s.len() ==> s[spec_find_char(s, c, i) as int] == c,
        forall|j: int| i <= j < spec_find_char(s, c, i) ==> s[j] != c,
        (exists|j: int| i <= j < s.len() && s[j] == c) ==> spec_find_char(s, c, i) < s.len(),
    decreases s.len() - i,
{
    if i >= s.len() {
    } else if s[i as int] == c {
    } else {
        lemma_find_char(s, c, (i + 1) as nat);
    }
}

/// `spec_find_mark` finds the first diacritic, in the same way.
pub proof fn lemma_find_mark(s: Seq<char>, i: nat)
    requires
        i <= s.len(),
    ensures
        i <= spec_find_mark(s, i) <= s.len(),
        spec_find_mark(s, i) < s.len() ==> spec_is_tone_mark(s[spec_find_mark(s, i) as int]),
        forall|j: int| i <= j < spec_find_mark(s, i) ==> !spec_is_tone_mark(s[j]),
        (exists|j: int| i <= j < s.len() && spec_is_tone_mark(s[j])) ==> spec_find_mark(s, i)
            < s.len(),
    decreases s.len() - i,
{
    if i >= s.len() {
    } else if spec_is_tone_mark(s[i as int]) {
    } else {
        lemma_find_mark(s, (i + 1) as nat);
    }
}

/// The nucleus, where there is one, is a letter position inside the body.
pub proof fn lemma_nucleus(s: Seq<char>)
    ensures
        spec_nucleus(s) matches Some(n) ==> n < s.len(),
{
    if s.contains('a') {
        lemma_find_char(s, 'a', 0);
    } else if s.contains('o') {
        lemma_find_char(s, 'o', 0);
    } else if s.contains('e') {
        lemma_find_char(s, 'e', 0);
    } else if s.contains('u') {
        lemma_find_char(s, 'u', 0);
    } else if s.contains('i') {
        lemma_find_char(s, 'i', 0);
    } else if s.contains('n') {
        lemma_find_char(s, 'n', 0);
    } else if s.contains('m') {
        lemma_find_char(s, 'm', 0);
    }
}

/// Letters carry no diacritic and are none of the khin markers or tone
/// digits.
pub proof fn lemma_letters_are_plain(c: char)
    requires
        spec_is_letter(c),
    ensures
        !spec_is_tone_mark(c),
        c != KHIN_DOT,
        c != '-',
        spec_tone_from_digit(c) is None,
{
}

/// Round trip at the heart of composing: inserting a character and removing
/// it at the same position gives the sequence back.
pub proof fn lemma_insert_remove(s: Seq<char>, i: int, c: char)
    requires
        0 <= i <= s.len(),
    ensures
        s.insert(i, c).remove(i) == s,
{
    s.insert_ensures(i, c);
    s.insert(i, c).remove_ensures(i);
    assert(s.insert(i, c).remove(i) =~= s);
}

/// Composing then parsing restores a well-formed syllable exactly: the
/// tone diacritic is found where it was placed, stripping it gives the body
/// back, the khin marker is read off the head, and the canonical raw
/// keystrokes are rebuilt. The khin marker survives only where the khin
/// mode renders one, so a khin syllable asks for the dot or hyphen mode.
pub proof fn lemma_parse_compose_round_trip(v: SylView, mode: ToneMode, khin_mode: KhinMode)
    requires
        spec_well_formed(v, mode),
        v.khin ==> khin_mode != KhinMode::Khinless,
    ensures
        spec_parse(spec_compose(v.raw_body, v.tone, v.khin, khin_mode), mode) == v,
{
    let body = v.raw_body;
    let marked = spec_mark_body(body, v.tone);
    let composed = spec_compose(body, v.tone, v.khin, khin_mode);
    let prefix = spec_khin_prefix(v.khin, khin_mode);

    // the marked body starts with a letter, so the khin strip is exact
    lemma_nucleus(body);
    match spec_tone_mark(v.tone) {
        None => {
            assert(marked == body);
        },
        Some(m) => {
            let n = spec_nucleus(body).unwrap();
            body.insert_ensures(n + 1 as int, m);
            assert(marked[0] == body[0]);
        },
    }
    assert(spec_is_letter(marked[0]));
    lemma_letters_are_plain(marked[0]);
    if v.khin {
        if khin_mode == KhinMode::Dot {
            assert(composed[0] == KHIN_DOT);
            assert(composed[0] != '-');
            assert(spec_strip_khin(composed).0);
            assert(spec_strip_khin(composed).1 =~= marked);
        } else {
            assert(khin_mode == KhinMode::Hyphen);
            assert(composed[0] == '-' && composed[1] == '-');
            assert(spec_strip_khin(composed).0);
            assert(spec_strip_khin(composed).1 =~= marked);
        }
    } else {
        assert(composed =~= marked);
        assert(composed[0] == marked[0]);
        assert(spec_strip_khin(composed).0 == false);
        assert(spec_strip_khin(composed).1 =~= marked);
    }
    assert(spec_strip_khin(composed) == (v.khin, marked));

    // the first diacritic of the marked body sits right after the nucleus
    match spec_tone_mark(v.tone) {
        Some(m) => {
            let n = spec_nucleus(body).unwrap();
            body.insert_ensures(n + 1 as int, m);
            assert(spec_is_tone_mark(marked[n + 1 as int])) by {
                crate::tone::lemma_mark_round_trip(v.tone);
            }
            assert(forall|j: int| 0 <= j < n + 1 ==> marked[j] == body[j]);
            assert(forall|j: int| 0 <= j < n + 1 ==> !spec_is_tone_mark(#[trigger] marked[j]))
                by {
                assert forall|j: int| 0 <= j < n + 1 implies !spec_is_tone_mark(
                    #[trigger] marked[j],
                ) by {
                    lemma_letters_are_plain(body[j]);
                }
            }
            lemma_find_mark_at(marked, n + 1 as nat);
            assert(spec_find_mark(marked, 0) == n + 1);
            crate::tone::lemma_mark_round_trip(v.tone);
            assert(spec_tone_from_mark(marked[n + 1 as int]) == Some(v.tone));
            lemma_insert_remove(body, n + 1 as int, m);
            assert(marked.remove(n + 1 as int) == body);
            assert(spec_parse(composed, mode).raw_body == body);
            assert(spec_parse(composed, mode).tone == v.tone);
            assert(spec_parse(composed, mode).khin == v.khin);
            assert(spec_parse(composed, mode).raw_input == v.raw_input);
        },
        None => {
            // tones 1 and 4: no diacritic anywhere in the letters
            assert(forall|j: int| 0 <= j < marked.len() ==> !spec_is_tone_mark(
                #[trigger] marked[j],
            )) by {
                assert forall|j: int| 0 <= j < marked.len() implies !spec_is_tone_mark(
                    #[trigger] marked[j],
                ) by {
                    lemma_letters_are_plain(marked[j]);
                }
            }
            lemma_find_mark_none(marked);
            assert(spec_find_mark(marked, 0) == marked.len());
            // no trailing digit either: the last character is a letter
            lemma_letters_are_plain(marked.last());
            assert(spec_trailing_digit_tone(marked) is None);
            assert(spec_parse(composed, mode).raw_body == body);
            assert(spec_parse(composed, mode).tone == v.tone);
            assert(spec_parse(composed, mode).khin == v.khin);
            assert(spec_parse(composed, mode).raw_input == v.raw_input);
        },
    }
}

/// If nothing before `i` is a diacritic and position `i` holds one, the
/// first diacritic is at `i`.
proof fn lemma_find_mark_at(s: Seq<char>, i: nat)
    requires
        i < s.len(),
        spec_is_tone_mark(s[i as int]),
        forall|j: int| 0 <= j < i ==> !spec_is_tone_mark(#[trigger] s[j]),
    ensures
        spec_find_mark(s, 0) == i,
{
    lemma_find_mark(s, 0);
    let f = spec_find_mark(s, 0);
    assert(f < s.len());
    if f < i {
        assert(!spec_is_tone_mark(s[f as int]));
    }
    if f > i {
        assert(!spec_is_tone_mark(s[i as int]));
    }
}

/// A sequence without diacritics has its first-diacritic position at the
/// end.
proof fn lemma_find_mark_none(s: Seq<char>)
    requires
        forall|j: int| 0 <= j < s.len() ==> !spec_is_tone_mark(#[trigger] s[j]),
    ensures
        spec_find_mark(s, 0) == s.len(),
{
    lemma_find_mark(s, 0);
    let f = spec_find_mark(s, 0);
    if f < s.len() {
        assert(!spec_is_tone_mark(s[f as int]));
    }
}

} // verus!
