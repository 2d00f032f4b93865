//! Tones of the romanization and their combining diacritics.
//!
//! A syllable carries one of nine tones. Tones 1 and 4 are written without a
//! mark; each of the others is rendered by inserting a single combining
//! diacritic after the nucleus vowel. Tones 4 and 8 occur exactly on
//! syllables that end in a stop coda (p, t, k or h).

use vstd::prelude::*;

verus! {

/// The nine tones. `T1` and `T4` carry no diacritic; `T4` and `T8` are the
/// stop-coda (checked) tones.
#[derive(Debug, Clone, Copy, PartialEq, Eq, Structural)]
pub enum Tone {
    T1,
    T2,
    T3,
    T4,
    T5,
    T6,
    T7,
    T8,
    T9,
}

/// The combining diacritic that writes a tone, if the tone has one.
pub open spec fn spec_tone_mark(t: Tone) -> Option<char> {
    match t {
        Tone::T1 => None,
        Tone::T2 => Some('\u{0301}'),  // acute
        Tone::T3 => Some('\u{0300}'),  // grave
        Tone::T4 => None,
        Tone::T5 => Some('\u{0302}'),  // circumflex
        Tone::T6 => Some('\u{030C}'),  // caron
        Tone::T7 => Some('\u{0304}'),  // macron
        Tone::T8 => Some('\u{030D}'),  // vertical line above
        Tone::T9 => Some('\u{0306}'),  // breve
    }
}

/// Whether `c` is one of the seven combining tone diacritics.
pub open spec fn spec_is_tone_mark(c: char) -> bool {
    spec_tone_from_mark(c) is Some
}

/// The tone written by the combining diacritic `c`, if any.
pub open spec fn spec_tone_from_mark(c: char) -> Option<Tone> {
    if c == '\u{0301}' {
        Some(Tone::T2)
    } else if c == '\u{0300}' {
        Some(Tone::T3)
    } else if c == '\u{0302}' {
        Some(Tone::T5)
    } else if c == '\u{030C}' {
        Some(Tone::T6)
    } else if c == '\u{0304}' {
        Some(Tone::T7)
    } else if c == '\u{030D}' {
        Some(Tone::T8)
    } else if c == '\u{0306}' {
        Some(Tone::T9)
    } else {
        None
    }
}

/// Marks determine their tones: reading a tone's mark back gives the tone.
pub proof fn lemma_mark_round_trip(t: Tone)
    ensures
        spec_tone_mark(t) matches Some(c) ==> spec_tone_from_mark(c) == Some(t),
{
}

impl Tone {
    /// The combining diacritic that writes this tone, if it has one.
    pub fn mark(self) -> (r: Option<char>)
        ensures
            r == spec_tone_mark(self),
    {
        match self {
            Tone::T1 => None,
            Tone::T2 => Some('\u{0301}'),
            Tone::T3 => Some('\u{0300}'),
            Tone::T4 => None,
            Tone::T5 => Some('\u{0302}'),
            Tone::T6 => Some('\u{030C}'),
            Tone::T7 => Some('\u{0304}'),
            Tone::T8 => Some('\u{030D}'),
            Tone::T9 => Some('\u{0306}'),
        }
    }

    /// The tone written by the combining diacritic `c`, if any.
    pub fn from_mark(c: char) -> (r: Option<Tone>)
        ensures
            r == spec_tone_from_mark(c),
    {
        if c == '\u{0301}' {
            Some(Tone::T2)
        } else if c == '\u{0300}' {
            Some(Tone::T3)
        } else if c == '\u{0302}' {
            Some(Tone::T5)
        } else if c == '\u{030C}' {
            Some(Tone::T6)
        } else if c == '\u{0304}' {
            Some(Tone::T7)
        } else if c == '\u{030D}' {
            Some(Tone::T8)
        } else if c == '\u{0306}' {
            Some(Tone::T9)
        } else {
            None
        }
    }
}

} // verus!
