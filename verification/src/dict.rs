//! The dictionary facade: the word list drawn from the conversion store,
//! prefix lookups, and dictionary-driven segmentation of raw input.
//!
//! A string is *segmentable* when it can be tiled, left to right, by
//! dictionary words. `segment` returns the greedy segmentation: at each
//! step the longest word that fits and leaves a segmentable remainder.

use vstd::pervasive::VecAdditionalExecFns;
use vstd::prelude::*;

use crate::config::ToneMode;
use crate::db::spec_conversions_for;
use crate::db::Conversion;
use crate::db::Database;
use crate::error::KhiinError;
use crate::text::str_eq;
use crate::text::str_to_chars;

verus! {

/// The distinct non-empty key sequences of the store's records, in order of
/// first appearance.
pub open spec fn spec_keys_dedup(records: Seq<Conversion>) -> Seq<Seq<char>>
    decreases records.len(),
{
    if records.len() == 0 {
        Seq::empty()
    } else {
        let rest = spec_keys_dedup(records.drop_last());
        let k = records.last().key_sequence@;
        if k.len() == 0 || rest.contains(k) {
            rest
        } else {
            rest.push(k)
        }
    }
}

/// Every word of the deduplicated key list is non-empty and has at least
/// one conversion in the store.
pub proof fn lemma_dict_words_have_conversions(records: Seq<Conversion>)
    ensures
        forall|w: Seq<char>| #[trigger]
            spec_keys_dedup(records).contains(w) ==> w.len() > 0 && spec_conversions_for(
                records,
                w,
            ).len() > 0,
    decreases records.len(),
{
    if records.len() == 0 {
    } else {
        let prior = records.drop_last();
        lemma_dict_words_have_conversions(prior);
        let k = records.last().key_sequence@;
        assert forall|w: Seq<char>| #[trigger]
            spec_keys_dedup(records).contains(w) implies w.len() > 0 && spec_conversions_for(
            records,
            w,
        ).len() > 0 by {
            if spec_keys_dedup(prior).contains(w) {
                assert(spec_conversions_for(prior, w).len() > 0);
                assert(spec_conversions_for(records, w).len() >= spec_conversions_for(
                    prior,
                    w,
                ).len());
            } else {
                // w is the newly pushed key of the last record
                let list = spec_keys_dedup(records);
                let rest = spec_keys_dedup(prior);
                assert(list == rest.push(k));
                let i = choose|i: int| 0 <= i < list.len() && list[i] == w;
                if i < rest.len() {
                    assert(rest.contains(w));
                } else {
                    assert(w == k);
                    assert(records.last().key_sequence@ == w);
                    assert(spec_conversions_for(records, w).len() > 0);
                }
            }
        }
    }
}

/// Whether some word of `words` (viewed character-wise) equals `w`.
fn contains_word(words: &Vec<String>, w: &str) -> (r: bool)
    ensures
        r == words@.map_values(|x: String| x@).contains(w@),
{
    let ghost view = words@.map_values(|x: String| x@);
    let mut i: usize = 0;
    while i < words.len()
        invariant
            i <= words@.len(),
            view == words@.map_values(|x: String| x@),
            forall|j: int| 0 <= j < i ==> view[j] != w@,
        decreases words@.len() - i,
    {
        if str_eq(words[i].as_str(), w) {
            assert(view[i as int] == w@);
            return true;
        }
        i = i + 1;
    }
    assert(!view.contains(w@));
    false
}

/// The dictionary: the word list the segmenter tiles raw input with.
#[derive(Debug)]
pub struct Dictionary {
    pub words: Vec<String>,
}

impl Dictionary {
    /// The words, character-wise.
    pub open spec fn spec_words(&self) -> Seq<Seq<char>> {
        self.words@.map_values(|w: String| w@)
    }

    /// A dictionary never holds an empty word.
    pub open spec fn wf(&self) -> bool {
        forall|i: int|
            0 <= i < self.spec_words().len() ==> (#[trigger] self.spec_words()[i]).len() > 0
    }

    /// Builds the word list from the store: the distinct non-empty key
    /// sequences, in order of first appearance. The tone mode names the key
    /// column of the persistent store; the records already carry it.
    pub fn new(db: &Database, _tone_mode: ToneMode) -> (r: Dictionary)
        ensures
            r.spec_words() == spec_keys_dedup(db.records@),
            r.wf(),
    {
        let mut words: Vec<String> = Vec::new();
        let mut i: usize = 0;
        while i < db.records.len()
            invariant
                i <= db.records@.len(),
                words@.map_values(|x: String| x@) == spec_keys_dedup(db.records@.take(i as int)),
            decreases db.records@.len() - i,
        {
            proof {
                assert(db.records@.take(i + 1).drop_last() =~= db.records@.take(i as int));
                assert(db.records@.take(i + 1).last() == db.records@[i as int]);
            }
            let key = &db.records[i].key_sequence;
            if key.as_str().unicode_len() > 0 && !contains_word(&words, key.as_str()) {
                let ghost prior = words@.map_values(|x: String| x@);
                words.push(key.clone());
                assert(words@.map_values(|x: String| x@) =~= prior.push(key@));
            }
            i = i + 1;
        }
        proof {
            assert(db.records@.take(i as int) =~= db.records@);
        }
        let r = Dictionary { words };
        proof {
            lemma_dict_words_have_conversions(db.records@);
            assert forall|k: int| 0 <= k < r.spec_words().len() implies (
            #[trigger] r.spec_words()[k]).len() > 0 by {
                assert(r.spec_words().contains(r.spec_words()[k]));
            }
        }
        r
    }

    /// Every dictionary word that is a prefix of `query`, in word-list
    /// order.
    pub fn all_words_from_start(&self, query: &str) -> (r: Vec<String>)
        ensures
            r@.map_values(|w: String| w@) == spec_words_from_start(self.spec_words(), query@),
    {
        let mut r: Vec<String> = Vec::new();
        let mut i: usize = 0;
        while i < self.words.len()
            invariant
                i <= self.words@.len(),
                r@.map_values(|w: String| w@) == spec_words_from_start(
                    self.spec_words().take(i as int),
                    query@,
                ),
            decreases self.words@.len() - i,
        {
            proof {
                assert(self.spec_words().take(i + 1).drop_last() =~= self.spec_words().take(
                    i as int,
                ));
                assert(self.spec_words().take(i + 1).last() == self.spec_words()[i as int]);
            }
            if crate::text::str_is_prefix(self.words[i].as_str(), query) {
                let ghost prior = r@.map_values(|w: String| w@);
                r.push(self.words[i].clone());
                assert(r@.map_values(|w: String| w@) =~= prior.push(self.words@[i as int]@));
            }
            i = i + 1;
        }
        proof {
            assert(self.spec_words().take(i as int) =~= self.spec_words());
        }
        r
    }

    /// Whether `suffix` can be tiled by dictionary words; the empty string
    /// can.
    pub fn can_segment(&self, suffix: &str) -> (r: bool)
        requires
            self.wf(),
        ensures
            r == spec_can_segment(self.spec_words(), suffix@),
    {
        let ghost words = self.spec_words();
        let chars = str_to_chars(suffix);
        let n = chars.len();
        if n == 0 {
            proof {
                lemma_can_segment_empty(words);
                assert(suffix@ =~= Seq::<char>::empty());
            }
            return true;
        }
        // seen[j] says whether the suffix of `chars` starting at j can be
        // tiled; the position past the end always can, and is left implicit
        let mut seen: Vec<bool> = Vec::new();
        let mut t: usize = 0;
        while t < n
            invariant
                seen@.len() == t,
                t <= n,
            decreases n - t,
        {
            seen.push(false);
            t = t + 1;
        }
        let mut j: usize = n;
        while j > 0
            invariant
                seen@.len() == n,
                j <= n,
                n == chars@.len(),
                chars@ == suffix@,
                words == self.spec_words(),
                self.wf(),
                forall|q: int|
                    j <= q < n ==> seen@[q] == spec_can_segment(words, chars@.skip(q)),
            decreases j,
        {
            j = j - 1;
            let found = self.any_word_fits(&chars, j, &seen);
            proof {
                lemma_step_equivalence(words, chars@, j as int, seen@);
            }
            seen.set(j, found);
        }
        let r = seen[0];
        proof {
            assert(chars@.skip(0) =~= suffix@);
        }
        r
    }

    /// Whether some dictionary word starts at `j` in `chars` and either
    /// reaches the end or lands on a position already known tileable.
    fn any_word_fits(&self, chars: &Vec<char>, j: usize, seen: &Vec<bool>) -> (r: bool)
        requires
            j < chars@.len(),
            seen@.len() == chars@.len(),
        ensures
            r == (exists|i: int|
                0 <= i < self.spec_words().len() && spec_word_fits(
                    #[trigger] self.spec_words()[i],
                    chars@,
                    j as int,
                    seen@,
                )),
    {
        let mut i: usize = 0;
        while i < self.words.len()
            invariant
                i <= self.words@.len(),
                j < chars@.len(),
                seen@.len() == chars@.len(),
                forall|p: int|
                    0 <= p < i ==> !spec_word_fits(
                        #[trigger] self.spec_words()[p],
                        chars@,
                        j as int,
                        seen@,
                    ),
            decreases self.words@.len() - i,
        {
            if word_fits(chars, j, self.words[i].as_str(), seen) {
                assert(spec_word_fits(self.spec_words()[i as int], chars@, j as int, seen@));
                return true;
            }
            i = i + 1;
        }
        false
    }
}

/// A word placed at `j`: it fits inside the text, matches it character by
/// character, and what follows it is the end or a position marked tileable.
pub open spec fn spec_word_fits(w: Seq<char>, s: Seq<char>, j: int, seen: Seq<bool>) -> bool {
    &&& j + w.len() <= s.len()
    &&& w.is_prefix_of(s.skip(j))
    &&& (j + w.len() == s.len() || seen[j + w.len()])
}

/// Whether `w` fits at position `j`.
fn word_fits(chars: &Vec<char>, j: usize, w: &str, seen: &Vec<bool>) -> (r: bool)
    requires
        j < chars@.len(),
        seen@.len() == chars@.len(),
    ensures
        r == spec_word_fits(w@, chars@, j as int, seen@),
{
    let n = chars.len();
    let wl = w.unicode_len();
    if wl > n - j {
        return false;
    }
    let mut x: usize = 0;
    while x < wl
        invariant
            wl == w@.len(),
            n == chars@.len(),
            j + wl <= n,
            x <= wl,
            forall|y: int| 0 <= y < x ==> w@[y] == chars@[j + y],
        decreases wl - x,
    {
        if w.get_char(x) != chars[j + x] {
            assert(w@[x as int] != chars@.skip(j as int)[x as int]);
            assert(!w@.is_prefix_of(chars@.skip(j as int)));
            return false;
        }
        x = x + 1;
    }
    assert(w@ =~= chars@.skip(j as int).take(wl as int));
    if j + wl == chars.len() {
        true
    } else {
        seen[j + wl]
    }
}

/// The words of the list that are prefixes of `q`, in list order.
pub open spec fn spec_words_from_start(words: Seq<Seq<char>>, q: Seq<char>) -> Seq<Seq<char>>
    decreases words.len(),
{
    if words.len() == 0 {
        Seq::empty()
    } else {
        let rest = spec_words_from_start(words.drop_last(), q);
        if words.last().is_prefix_of(q) {
            rest.push(words.last())
        } else {
            rest
        }
    }
}

/// Every word that a prefix lookup returns is a prefix of the query.
pub proof fn lemma_words_from_start_prefix(words: Seq<Seq<char>>, q: Seq<char>)
    ensures
        forall|i: int|
            0 <= i < spec_words_from_start(words, q).len() ==> (#[trigger] spec_words_from_start(
                words,
                q,
            )[i]).is_prefix_of(q),
    decreases words.len(),
{
    if words.len() == 0 {
    } else {
        lemma_words_from_start_prefix(words.drop_last(), q);
        let all = spec_words_from_start(words, q);
        let rest = spec_words_from_start(words.drop_last(), q);
        assert forall|i: int| 0 <= i < all.len() implies (#[trigger] all[i]).is_prefix_of(q) by {
            if i < rest.len() {
                assert(all[i] == rest[i]);
            } else {
                assert(all[i] == words.last());
            }
        }
    }
}

/// A tiling of `s`: non-empty dictionary words laid end to end that
/// concatenate to `s`.
pub open spec fn spec_is_tiling(
    words: Seq<Seq<char>>,
    s: Seq<char>,
    parts: Seq<Seq<char>>,
) -> bool {
    &&& parts.flatten() == s
    &&& forall|i: int|
        0 <= i < parts.len() ==> words.contains(#[trigger] parts[i]) && parts[i].len() > 0
}

/// Whether `s` can be tiled by dictionary words.
pub open spec fn spec_can_segment(words: Seq<Seq<char>>, s: Seq<char>) -> bool {
    exists|parts: Seq<Seq<char>>| #[trigger] spec_is_tiling(words, s, parts)
}

/// The empty string is segmentable: the empty tiling covers it.
pub proof fn lemma_can_segment_empty(words: Seq<Seq<char>>)
    ensures
        spec_can_segment(words, Seq::<char>::empty()),
{
    let parts = Seq::<Seq<char>>::empty();
    assert(parts.flatten() =~= Seq::<char>::empty());
    assert(spec_is_tiling(words, Seq::<char>::empty(), parts));
}

/// A non-empty segmentable string opens with a dictionary word whose
/// remainder is itself segmentable.
pub proof fn lemma_can_segment_decompose(words: Seq<Seq<char>>, s: Seq<char>)
    requires
        spec_can_segment(words, s),
        s.len() > 0,
    ensures
        exists|k: int|
            1 <= k <= s.len() && words.contains(#[trigger] s.take(k)) && spec_can_segment(
                words,
                s.skip(k),
            ),
{
    let parts = choose|parts: Seq<Seq<char>>| #[trigger] spec_is_tiling(words, s, parts);
    if parts.len() == 0 {
        assert(parts.flatten() =~= Seq::<char>::empty());
        assert(false);
    }
    let w = parts.first();
    assert(words.contains(parts[0]) && parts[0].len() > 0);
    assert(parts.flatten() == w + parts.drop_first().flatten());
    let k = w.len() as int;
    assert(s.take(k) =~= w);
    let rest = parts.drop_first();
    assert(rest.flatten() =~= s.skip(k));
    assert forall|i: int| 0 <= i < rest.len() implies words.contains(#[trigger] rest[i])
        && rest[i].len() > 0 by {
        assert(rest[i] == parts[i + 1]);
    }
    assert(spec_is_tiling(words, s.skip(k), rest));
    assert(words.contains(s.take(k)) && spec_can_segment(words, s.skip(k)));
}

/// The longest length `1 ..= k` at which a dictionary word covers the head
/// of `s` and leaves a segmentable remainder; 0 where none does.
pub open spec fn spec_best_len(words: Seq<Seq<char>>, s: Seq<char>, k: nat) -> nat
    decreases k,
{
    if k == 0 {
        0
    } else if k <= s.len() && words.contains(s.take(k as int)) && spec_can_segment(
        words,
        s.skip(k as int),
    ) {
        k
    } else {
        spec_best_len(words, s, (k - 1) as nat)
    }
}

/// `spec_best_len` is bounded by its argument, names a feasible word when
/// it is positive, and dominates every feasible length.
pub proof fn lemma_best_len(words: Seq<Seq<char>>, s: Seq<char>, k: nat)
    requires
        k <= s.len(),
    ensures
        spec_best_len(words, s, k) <= k,
        spec_best_len(words, s, k) > 0 ==> words.contains(
            s.take(spec_best_len(words, s, k) as int),
        ) && spec_can_segment(words, s.skip(spec_best_len(words, s, k) as int)),
        forall|k0: int|
            1 <= k0 <= k && words.contains(#[trigger] s.take(k0)) && spec_can_segment(
                words,
                s.skip(k0),
            ) ==> k0 <= spec_best_len(words, s, k),
    decreases k,
{
    if k == 0 {
    } else if k <= s.len() && words.contains(s.take(k as int)) && spec_can_segment(
        words,
        s.skip(k as int),
    ) {
    } else {
        lemma_best_len(words, s, (k - 1) as nat);
    }
}

/// The greedy segmentation: at each step the longest word that fits and
/// leaves a segmentable remainder. Where no word fits, it stops short.
pub open spec fn spec_greedy(words: Seq<Seq<char>>, s: Seq<char>) -> Seq<Seq<char>>
    decreases s.len(),
{
    if s.len() == 0 {
        Seq::empty()
    } else {
        let k = spec_best_len(words, s, s.len());
        if k == 0 || k > s.len() {
            Seq::empty()
        } else {
            seq![s.take(k as int)] + spec_greedy(words, s.skip(k as int))
        }
    }
}

impl Dictionary {
    /// The longest feasible word length at position `j` of `chars`:
    /// the `spec_best_len` of the suffix starting there.
    fn best_word_len(&self, section: &str, chars: &Vec<char>, j: usize) -> (b: usize)
        requires
            self.wf(),
            chars@ == section@,
            j < chars@.len(),
        ensures
            b == spec_best_len(
                self.spec_words(),
                chars@.skip(j as int),
                (chars@.len() - j) as nat,
            ),
    {
        let ghost words = self.spec_words();
        let ghost tail = chars@.skip(j as int);
        let n = chars.len();
        let mut k: usize = n - j;
        while k > 0
            invariant
                k <= n - j,
                n == chars@.len(),
                chars@ == section@,
                j < n,
                tail == chars@.skip(j as int),
                words == self.spec_words(),
                self.wf(),
                spec_best_len(words, tail, (n - j) as nat) == spec_best_len(
                    words,
                    tail,
                    k as nat,
                ),
            decreases k,
        {
            let head = section.substring_char(j, j + k);
            let rest = section.substring_char(j + k, n);
            proof {
                assert(head@ =~= tail.take(k as int));
                assert(rest@ =~= tail.skip(k as int));
            }
            if contains_word(&self.words, head) && self.can_segment(rest) {
                return k;
            }
            k = k - 1;
        }
        0
    }

    /// The greedy longest-match segmentation of `section` into dictionary
    /// words, or an error when the section cannot be tiled at all.
    pub fn segment(&self, section: &str) -> (r: Result<Vec<String>, KhiinError>)
        requires
            self.wf(),
        ensures
            r is Ok <==> spec_can_segment(self.spec_words(), section@),
            r matches Ok(parts) ==> parts@.map_values(|w: String| w@) == spec_greedy(
                self.spec_words(),
                section@,
            ) && spec_is_tiling(
                self.spec_words(),
                section@,
                parts@.map_values(|w: String| w@),
            ),
    {
        let ghost words = self.spec_words();
        let chars = str_to_chars(section);
        let n = chars.len();
        let mut parts: Vec<String> = Vec::new();
        let mut j: usize = 0;
        proof {
            assert(parts@.map_values(|w: String| w@) =~= Seq::<Seq<char>>::empty());
            assert(chars@.skip(0) =~= section@);
            assert(Seq::<Seq<char>>::empty() + spec_greedy(words, section@) =~= spec_greedy(
                words,
                section@,
            ));
            assert(Seq::<Seq<char>>::empty().flatten() =~= Seq::<char>::empty());
            assert(chars@.take(0) =~= Seq::<char>::empty());
        }
        while j < n
            invariant
                j <= n,
                n == chars@.len(),
                chars@ == section@,
                words == self.spec_words(),
                self.wf(),
                spec_greedy(words, section@) == parts@.map_values(|w: String| w@)
                    + spec_greedy(words, chars@.skip(j as int)),
                parts@.map_values(|w: String| w@).flatten() == chars@.take(j as int),
                forall|p: int|
                    0 <= p < parts@.len() ==> words.contains((#[trigger] parts@[p])@)
                        && parts@[p]@.len() > 0,
                j > 0 ==> spec_can_segment(words, chars@.skip(j as int)),
            decreases n - j,
        {
            let ghost tail = chars@.skip(j as int);
            let best = self.best_word_len(section, &chars, j);
            proof {
                lemma_best_len(words, tail, (n - j) as nat);
            }
            if best == 0 {
                proof {
                    if j > 0 {
                        // the invariant says the tail is segmentable, so a
                        // feasible word exists and the best length is positive
                        lemma_can_segment_decompose(words, tail);
                        let k = choose|k: int|
                            1 <= k <= tail.len() && words.contains(#[trigger] tail.take(k))
                                && spec_can_segment(words, tail.skip(k));
                        assert(k <= spec_best_len(words, tail, (n - j) as nat));
                        assert(false);
                    } else {
                        assert(tail =~= section@);
                        if spec_can_segment(words, section@) {
                            lemma_can_segment_decompose(words, tail);
                            let k = choose|k: int|
                                1 <= k <= tail.len() && words.contains(#[trigger] tail.take(k))
                                    && spec_can_segment(words, tail.skip(k));
                            assert(k <= spec_best_len(words, tail, (n - j) as nat));
                            assert(false);
                        }
                    }
                }
                return Err(KhiinError::NotSegmentable);
            }
            let word = section.substring_char(j, j + best);
            let ghost prior = parts@.map_values(|w: String| w@);
            parts.push(word.to_owned());
            proof {
                let views = parts@.map_values(|w: String| w@);
                assert(views =~= prior.push(tail.take(best as int))) by {
                    assert(word@ =~= tail.take(best as int));
                }
                // the greedy spec takes exactly this word here
                assert(spec_greedy(words, tail) == seq![tail.take(best as int)] + spec_greedy(
                    words,
                    tail.skip(best as int),
                ));
                assert(tail.skip(best as int) =~= chars@.skip(j + best));
                assert(prior + spec_greedy(words, tail) =~= views + spec_greedy(
                    words,
                    chars@.skip(j + best),
                )) by {
                    assert(prior + (seq![tail.take(best as int)] + spec_greedy(
                        words,
                        chars@.skip(j + best),
                    )) =~= views + spec_greedy(words, chars@.skip(j + best)));
                }
                // the tiling grows by one word
                prior.lemma_flatten_push(tail.take(best as int));
                assert(views.flatten() =~= chars@.take(j + best)) by {
                    assert(views.flatten() == prior.flatten() + tail.take(best as int));
                    assert(chars@.take(j as int) + tail.take(best as int) =~= chars@.take(
                        j + best,
                    ));
                }
                assert forall|p: int| 0 <= p < parts@.len() implies words.contains(
                    (#[trigger] parts@[p])@,
                ) && parts@[p]@.len() > 0 by {
                    assert(views[p] == parts@[p]@);
                    if p < prior.len() {
                        assert(views[p] == prior[p]);
                    } else {
                        assert(views[p] == tail.take(best as int));
                    }
                }
            }
            j = j + best;
        }
        proof {
            assert(chars@.skip(j as int).len() == 0);
            assert(spec_greedy(words, chars@.skip(j as int)) =~= Seq::<Seq<char>>::empty());
            let views = parts@.map_values(|w: String| w@);
            assert(spec_greedy(words, section@) =~= views);
            assert(chars@.take(j as int) =~= section@);
            assert(spec_is_tiling(words, section@, views));
        }
        Ok(parts)
    }
}

/// At a position `j` of the scan, some word fits exactly when the suffix at
/// `j` is segmentable, provided every position after `j` is already marked
/// correctly.
proof fn lemma_step_equivalence(words: Seq<Seq<char>>, s: Seq<char>, j: int, seen: Seq<bool>)
    requires
        0 <= j < s.len(),
        seen.len() == s.len(),
        forall|q: int| j < q < s.len() ==> seen[q] == spec_can_segment(words, s.skip(q)),
        forall|i: int|
            0 <= i < words.len() ==> (#[trigger] words[i]).len() > 0,
    ensures
        (exists|i: int|
            0 <= i < words.len() && spec_word_fits(#[trigger] words[i], s, j, seen))
            == spec_can_segment(words, s.skip(j)),
{
    let fits = exists|i: int|
        0 <= i < words.len() && spec_word_fits(#[trigger] words[i], s, j, seen);
    if fits {
        let i = choose|i: int|
            0 <= i < words.len() && spec_word_fits(#[trigger] words[i], s, j, seen);
        let w = words[i];
        let k = w.len() as int;
        assert(w.is_prefix_of(s.skip(j)));
        assert(s.skip(j) =~= w + s.skip(j + k)) by {
            assert(w =~= s.skip(j).take(k));
        }
        if j + k == s.len() {
            lemma_can_segment_empty(words);
            assert(s.skip(j + k) =~= Seq::<char>::empty());
        }
        assert(spec_can_segment(words, s.skip(j + k)));
        let rest = choose|parts: Seq<Seq<char>>| #[trigger] spec_is_tiling(words, s.skip(j + k), parts);
        let parts = seq![w] + rest;
        assert(parts.first() == w);
        assert(parts.drop_first() =~= rest);
        assert(parts.flatten() == w + rest.flatten());
        assert(parts.flatten() =~= s.skip(j));
        assert forall|p: int| 0 <= p < parts.len() implies words.contains(#[trigger] parts[p])
            && parts[p].len() > 0 by {
            if p == 0 {
                assert(parts[0] == w);
                assert(words.contains(w));
            } else {
                assert(parts[p] == rest[p - 1]);
            }
        }
        assert(spec_is_tiling(words, s.skip(j), parts));
    } else {
        if spec_can_segment(words, s.skip(j)) {
            assert(s.skip(j).len() > 0);
            lemma_can_segment_decompose(words, s.skip(j));
            let k = choose|k: int|
                1 <= k <= s.skip(j).len() && words.contains(#[trigger] s.skip(j).take(k))
                    && spec_can_segment(words, s.skip(j).skip(k));
            let w = s.skip(j).take(k);
            let i = choose|i: int| 0 <= i < words.len() && words[i] == w;
            assert(w.is_prefix_of(s.skip(j)));
            assert(s.skip(j).skip(k) =~= s.skip(j + k));
            if j + k < s.len() {
                assert(seen[j + k] == spec_can_segment(words, s.skip(j + k)));
            }
            assert(spec_word_fits(words[i], s, j, seen));
            assert(false);
        }
    }
}

} // verus!
