//! The input parser: classifying raw input into sections.
//!
//! Raw input is partitioned into maximal sections of one kind: runs of
//! hyphens, runs of punctuation, runs of anything unrecognized (plaintext),
//! and *splittable* sections: the longest prefix of a run of letters and
//! digits that the dictionary can tile.

use vstd::prelude::*;

use crate::dict::spec_can_segment;
use crate::dict::Dictionary;

verus! {

/// The kind of one section of raw input.
#[derive(Debug, Clone, Copy, PartialEq, Eq, Structural)]
pub enum SectionKind {
    Plaintext,
    Hyphens,
    Punct,
    Splittable,
}

/// The coarse class of one character, which bounds each section.
#[derive(Debug, Clone, Copy, PartialEq, Eq, Structural)]
pub enum CharClass {
    Hyphen,
    Punct,
    Alnum,
    Other,
}

/// The class of a character: a hyphen, ASCII punctuation, an ASCII letter
/// or digit, or anything else.
pub open spec fn spec_char_class(c: char) -> CharClass {
    if c == '-' {
        CharClass::Hyphen
    } else if ('!' <= c && c <= '/') || (':' <= c && c <= '@') || ('[' <= c && c <= '`') || ('{'
        <= c && c <= '~') {
        CharClass::Punct
    } else if ('a' <= c && c <= 'z') || ('A' <= c && c <= 'Z') || ('0' <= c && c <= '9') {
        CharClass::Alnum
    } else {
        CharClass::Other
    }
}

/// The class of a character.
pub fn char_class(c: char) -> (r: CharClass)
    ensures
        r == spec_char_class(c),
{
    if c == '-' {
        CharClass::Hyphen
    } else if ('!' <= c && c <= '/') || (':' <= c && c <= '@') || ('[' <= c && c <= '`') || ('{'
        <= c && c <= '~') {
        CharClass::Punct
    } else if ('a' <= c && c <= 'z') || ('A' <= c && c <= 'Z') || ('0' <= c && c <= '9') {
        CharClass::Alnum
    } else {
        CharClass::Other
    }
}

/// The end of the run of class `cl` that reaches position `i`.
pub open spec fn spec_run_end(s: Seq<char>, cl: CharClass, i: nat) -> nat
    decreases s.len() - i,
{
    if i >= s.len() || spec_char_class(s[i as int]) != cl {
        i
    } else {
        spec_run_end(s, cl, (i + 1) as nat)
    }
}

/// The run end stays within the string and the run is made of `cl`.
pub proof fn lemma_run_end(s: Seq<char>, cl: CharClass, i: nat)
    requires
        i <= s.len(),
    ensures
        i <= spec_run_end(s, cl, i) <= s.len(),
        forall|j: int| i <= j < spec_run_end(s, cl, i) ==> spec_char_class(s[j]) == cl,
        spec_run_end(s, cl, i) < s.len() ==> spec_char_class(
            s[spec_run_end(s, cl, i) as int],
        ) != cl,
    decreases s.len() - i,
{
    if i >= s.len() || spec_char_class(s[i as int]) != cl {
    } else {
        lemma_run_end(s, cl, (i + 1) as nat);
    }
}

/// The longest length `1 ..= k` whose prefix the dictionary can tile, or 0
/// where none can.
pub open spec fn spec_longest_splittable(words: Seq<Seq<char>>, s: Seq<char>, k: nat) -> nat
    decreases k,
{
    if k == 0 {
        0
    } else if k <= s.len() && spec_can_segment(words, s.take(k as int)) {
        k
    } else {
        spec_longest_splittable(words, s, (k - 1) as nat)
    }
}

/// `spec_longest_splittable` is bounded, names a splittable prefix when
/// positive, and dominates every splittable prefix length.
pub proof fn lemma_longest_splittable(words: Seq<Seq<char>>, s: Seq<char>, k: nat)
    requires
        k <= s.len(),
    ensures
        spec_longest_splittable(words, s, k) <= k,
        spec_longest_splittable(words, s, k) > 0 ==> spec_can_segment(
            words,
            s.take(spec_longest_splittable(words, s, k) as int),
        ),
        forall|k0: int|
            1 <= k0 <= k && spec_can_segment(words, #[trigger] s.take(k0)) ==> k0
                <= spec_longest_splittable(words, s, k),
    decreases k,
{
    if k == 0 {
    } else if k <= s.len() && spec_can_segment(words, s.take(k as int)) {
    } else {
        lemma_longest_splittable(words, s, (k - 1) as nat);
    }
}

/// The kind and length of the section at the head of `s`: the run of the
/// first character's class; for letters and digits, the longest splittable
/// prefix of the run where there is one, else the whole run as plaintext.
pub open spec fn spec_section_at(words: Seq<Seq<char>>, s: Seq<char>) -> (SectionKind, nat) {
    if s.len() == 0 {
        (SectionKind::Plaintext, 0 as nat)
    } else {
        match spec_char_class(s[0]) {
            CharClass::Hyphen => (SectionKind::Hyphens, spec_run_end(s, CharClass::Hyphen, 0)),
            CharClass::Punct => (SectionKind::Punct, spec_run_end(s, CharClass::Punct, 0)),
            CharClass::Other => (SectionKind::Plaintext, spec_run_end(s, CharClass::Other, 0)),
            CharClass::Alnum => {
                let run = spec_run_end(s, CharClass::Alnum, 0);
                let k = spec_longest_splittable(words, s, run);
                if k > 0 {
                    (SectionKind::Splittable, k)
                } else {
                    (SectionKind::Plaintext, run)
                }
            },
        }
    }
}

/// A section at the head of a non-empty string is non-empty, fits inside
/// the string, and a splittable section can be tiled.
pub proof fn lemma_section_at(words: Seq<Seq<char>>, s: Seq<char>)
    requires
        s.len() > 0,
    ensures
        1 <= spec_section_at(words, s).1 <= s.len(),
        spec_section_at(words, s).0 == SectionKind::Splittable ==> spec_can_segment(
            words,
            s.take(spec_section_at(words, s).1 as int),
        ),
{
    let cl = spec_char_class(s[0]);
    lemma_run_end(s, cl, 0);
    assert(spec_run_end(s, cl, 0) >= 1) by {
        if spec_run_end(s, cl, 0) == 0 {
            assert(spec_char_class(s[0]) != cl);
        }
    }
    if cl == CharClass::Alnum {
        let run = spec_run_end(s, CharClass::Alnum, 0);
        lemma_longest_splittable(words, s, run);
    }
}

/// The run end of the class of `chars[0]`, starting at 0.
fn run_end(chars: &Vec<char>, cl: CharClass) -> (r: usize)
    ensures
        r == spec_run_end(chars@, cl, 0),
{
    let n = chars.len();
    let mut i: usize = 0;
    while i < n
        invariant
            i <= n,
            n == chars@.len(),
            spec_run_end(chars@, cl, 0) == spec_run_end(chars@, cl, i as nat),
        decreases n - i,
    {
        if char_class(chars[i]) != cl {
            return i;
        }
        i = i + 1;
    }
    i
}

/// Classifies the longest prefix of `raw` that belongs to one section kind,
/// returning the kind and the prefix's length in characters.
pub fn parse_longest_from_start(dict: &Dictionary, raw: &str) -> (r: (SectionKind, usize))
    requires
        dict.wf(),
    ensures
        r.0 == spec_section_at(dict.spec_words(), raw@).0,
        r.1 as nat == spec_section_at(dict.spec_words(), raw@).1,
{
    let ghost words = dict.spec_words();
    let chars = crate::text::str_to_chars(raw);
    let n = chars.len();
    if n == 0 {
        return (SectionKind::Plaintext, 0);
    }
    let cl = char_class(chars[0]);
    match cl {
        CharClass::Hyphen => (SectionKind::Hyphens, run_end(&chars, CharClass::Hyphen)),
        CharClass::Punct => (SectionKind::Punct, run_end(&chars, CharClass::Punct)),
        CharClass::Other => (SectionKind::Plaintext, run_end(&chars, CharClass::Other)),
        CharClass::Alnum => {
            let run = run_end(&chars, CharClass::Alnum);
            proof {
                lemma_run_end(chars@, CharClass::Alnum, 0);
            }
            let mut k: usize = run;
            while k > 0
                invariant
                    k <= run,
                    run <= n,
                    1 <= n == chars@.len(),
                    chars@ == raw@,
                    words == dict.spec_words(),
                    dict.wf(),
                    spec_char_class(raw@[0]) == CharClass::Alnum,
                    run as nat == spec_run_end(raw@, CharClass::Alnum, 0),
                    spec_longest_splittable(words, raw@, run as nat) == spec_longest_splittable(
                        words,
                        raw@,
                        k as nat,
                    ),
                decreases k,
            {
                let head = raw.substring_char(0, k);
                proof {
                    assert(head@ =~= raw@.take(k as int));
                }
                if dict.can_segment(head) {
                    proof {
                        assert(spec_can_segment(words, raw@.take(k as int)));
                        assert(spec_longest_splittable(words, raw@, k as nat) == k as nat);
                    }
                    return (SectionKind::Splittable, k);
                }
                k = k - 1;
            }
            (SectionKind::Plaintext, run)
        },
    }
}

/// The partition of `s` into maximal same-kind sections, head first.
pub open spec fn spec_sections(words: Seq<Seq<char>>, s: Seq<char>) -> Seq<
    (SectionKind, Seq<char>),
>
    decreases s.len(),
{
    if s.len() == 0 {
        Seq::empty()
    } else {
        let kind = spec_section_at(words, s).0;
        let l = spec_section_at(words, s).1;
        if l < 1 || l > s.len() {
            seq![(SectionKind::Plaintext, s)]
        } else {
            seq![(kind, s.take(l as int))] + spec_sections(words, s.skip(l as int))
        }
    }
}

/// The section texts concatenate back to the partitioned string.
pub proof fn lemma_sections_tile(words: Seq<Seq<char>>, s: Seq<char>)
    ensures
        spec_sections(words, s).map_values(|t: (SectionKind, Seq<char>)| t.1).flatten() == s,
        forall|i: int|
            0 <= i < spec_sections(words, s).len() ==> (#[trigger] spec_sections(
                words,
                s,
            )[i]).1.len() > 0,
    decreases s.len(),
{
    let secs = spec_sections(words, s);
    let texts = secs.map_values(|t: (SectionKind, Seq<char>)| t.1);
    if s.len() == 0 {
        assert(texts =~= Seq::<Seq<char>>::empty());
        assert(texts.flatten() =~= s);
    } else {
        lemma_section_at(words, s);
        let l = spec_section_at(words, s).1;
        let kind = spec_section_at(words, s).0;
        lemma_sections_tile(words, s.skip(l as int));
        let rest = spec_sections(words, s.skip(l as int));
        let rest_texts = rest.map_values(|t: (SectionKind, Seq<char>)| t.1);
        assert(secs == seq![(kind, s.take(l as int))] + rest);
        assert(texts.first() == s.take(l as int));
        assert(texts.drop_first() =~= rest_texts);
        assert(texts.flatten() == s.take(l as int) + rest_texts.flatten());
        assert(texts.flatten() =~= s);
        assert forall|i: int| 0 <= i < secs.len() implies (#[trigger] secs[i]).1.len() > 0 by {
            if i > 0 {
                assert(secs[i] == rest[i - 1]);
            }
        }
    }
}

/// Every splittable section of the partition can be tiled by dictionary
/// words.
pub proof fn lemma_sections_splittable(words: Seq<Seq<char>>, s: Seq<char>)
    ensures
        forall|i: int|
            0 <= i < spec_sections(words, s).len() && (#[trigger] spec_sections(words, s)[i]).0
                == SectionKind::Splittable ==> spec_can_segment(
                words,
                spec_sections(words, s)[i].1,
            ),
    decreases s.len(),
{
    if s.len() == 0 {
    } else {
        lemma_section_at(words, s);
        let l = spec_section_at(words, s).1;
        let kind = spec_section_at(words, s).0;
        lemma_sections_splittable(words, s.skip(l as int));
        let secs = spec_sections(words, s);
        let rest = spec_sections(words, s.skip(l as int));
        assert forall|i: int|
            0 <= i < secs.len() && (#[trigger] secs[i]).0
                == SectionKind::Splittable implies spec_can_segment(words, secs[i].1) by {
            if i == 0 {
                assert(secs[0] == (kind, s.take(l as int)));
            } else {
                assert(secs[i] == rest[i - 1]);
            }
        }
    }
}

/// Partitions the whole raw buffer into maximal same-kind sections.
pub fn parse_whole_input(dict: &Dictionary, raw: &str) -> (r: Vec<(SectionKind, String)>)
    requires
        dict.wf(),
    ensures
        r@.map_values(|t: (SectionKind, String)| (t.0, t.1@)) == spec_sections(
            dict.spec_words(),
            raw@,
        ),
{
    let ghost words = dict.spec_words();
    let n = raw.unicode_len();
    let mut sections: Vec<(SectionKind, String)> = Vec::new();
    let mut j: usize = 0;
    proof {
        assert(sections@.map_values(|t: (SectionKind, String)| (t.0, t.1@)) =~= Seq::<
            (SectionKind, Seq<char>),
        >::empty());
        assert(raw@.skip(0) =~= raw@);
        assert(Seq::<(SectionKind, Seq<char>)>::empty() + spec_sections(words, raw@)
            =~= spec_sections(words, raw@));
    }
    while j < n
        invariant
            j <= n,
            n == raw@.len(),
            words == dict.spec_words(),
            dict.wf(),
            spec_sections(words, raw@) == sections@.map_values(
                |t: (SectionKind, String)| (t.0, t.1@),
            ) + spec_sections(words, raw@.skip(j as int)),
        decreases n - j,
    {
        let ghost tail = raw@.skip(j as int);
        let rest = raw.substring_char(j, n);
        proof {
            assert(rest@ =~= tail);
        }
        let (kind, l) = parse_longest_from_start(dict, rest);
        proof {
            lemma_section_at(words, tail);
        }
        let text = rest.substring_char(0, l);
        let ghost prior = sections@.map_values(|t: (SectionKind, String)| (t.0, t.1@));
        sections.push((kind, text.to_owned()));
        proof {
            let views = sections@.map_values(|t: (SectionKind, String)| (t.0, t.1@));
            assert(views =~= prior.push((kind, tail.take(l as int)))) by {
                assert(text@ =~= tail.take(l as int));
            }
            assert(spec_sections(words, tail) == seq![(kind, tail.take(l as int))]
                + spec_sections(words, tail.skip(l as int)));
            assert(tail.skip(l as int) =~= raw@.skip(j + l));
            assert(prior + spec_sections(words, tail) =~= views + spec_sections(
                words,
                raw@.skip(j + l),
            ));
        }
        j = j + l;
    }
    proof {
        assert(spec_sections(words, raw@.skip(j as int)) =~= Seq::<
            (SectionKind, Seq<char>),
        >::empty());
        assert(spec_sections(words, raw@) =~= sections@.map_values(
            |t: (SectionKind, String)| (t.0, t.1@),
        ));
    }
    sections
}

} // verus!
