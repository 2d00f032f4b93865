//! The conversion store facade: ranked conversions for dictionary words.
//!
//! The store is read-only after construction. Its records are held in rank
//! order per word, the way the persistent store hands them out; lookups
//! keep that order (word order first, then rank).

use vstd::prelude::*;

use crate::config::ToneMode;
use crate::text::str_eq;

verus! {

/// One conversion: a key sequence (the raw form typed), its Romanized
/// display form, its Han display form where one exists, and a weight kept
/// only for sort stability.
#[derive(Debug, PartialEq, Eq)]
pub struct Conversion {
    pub key_sequence: String,
    pub lomaji: String,
    pub hanji: Option<String>,
    pub weight: u64,
}

impl Clone for Conversion {
    fn clone(&self) -> (r: Self)
        ensures
            r == *self,
    {
        Conversion {
            key_sequence: self.key_sequence.clone(),
            lomaji: self.lomaji.clone(),
            hanji: match &self.hanji {
                Some(h) => Some(h.clone()),
                None => None,
            },
            weight: self.weight,
        }
    }
}

impl Conversion {
    /// The display form of the conversion itself: the Han form where the
    /// record carries one, else the Romanized form.
    pub open spec fn spec_display(&self) -> Seq<char> {
        match self.hanji {
            Some(h) => h@,
            None => self.lomaji@,
        }
    }

    /// The display form of the conversion itself.
    pub fn display(&self) -> (r: &String)
        ensures
            r@ == self.spec_display(),
    {
        match &self.hanji {
            Some(h) => h,
            None => &self.lomaji,
        }
    }
}

/// The records whose key sequence is exactly `w`, in store order.
pub open spec fn spec_conversions_for(records: Seq<Conversion>, w: Seq<char>) -> Seq<Conversion>
    decreases records.len(),
{
    if records.len() == 0 {
        Seq::empty()
    } else {
        let rest = spec_conversions_for(records.drop_last(), w);
        if records.last().key_sequence@ == w {
            rest.push(records.last())
        } else {
            rest
        }
    }
}

/// One step of the keyed filter: extending the scanned prefix by one
/// record keeps the filtered result, plus that record where its key
/// matches.
pub proof fn lemma_conversions_for_step(records: Seq<Conversion>, w: Seq<char>, i: int)
    requires
        0 <= i < records.len(),
    ensures
        spec_conversions_for(records.take(i + 1), w) == (if records[i].key_sequence@ == w {
            spec_conversions_for(records.take(i), w).push(records[i])
        } else {
            spec_conversions_for(records.take(i), w)
        }),
{
    assert(records.take(i + 1).drop_last() =~= records.take(i));
    assert(records.take(i + 1).last() == records[i]);
    assert(records.take(i + 1).len() == i + 1);
}

/// The first `limit` records of `s`, or all of them without a limit.
pub open spec fn spec_take_limit(s: Seq<Conversion>, limit: Option<usize>) -> Seq<Conversion> {
    match limit {
        None => s,
        Some(l) => if l < s.len() {
            s.take(l as int)
        } else {
            s
        },
    }
}

/// The lookups for each word of `ws` in order, concatenated.
pub open spec fn spec_conversions_for_all(
    records: Seq<Conversion>,
    ws: Seq<Seq<char>>,
) -> Seq<Conversion>
    decreases ws.len(),
{
    if ws.len() == 0 {
        Seq::empty()
    } else {
        spec_conversions_for_all(records, ws.drop_last()) + spec_conversions_for(
            records,
            ws.last(),
        )
    }
}

/// The in-memory conversion store. Records stand in rank order per word;
/// the host loads them from its persistent store and hands them over as
/// plain values.
#[derive(Debug)]
pub struct Database {
    pub records: Vec<Conversion>,
}

impl Database {
    /// A store over the given records, kept in the order given.
    pub fn new(records: Vec<Conversion>) -> (r: Database)
        ensures
            r.records@ == records@,
    {
        Database { records }
    }

    /// Ranked conversions for one word: every record keyed exactly by
    /// `word`, in store order, cut off at `limit` if one is given. The tone
    /// mode names the key column of the persistent store; the records here
    /// already carry the selected column.
    pub fn select_conversions(
        &self,
        _tone_mode: ToneMode,
        word: &str,
        limit: Option<usize>,
    ) -> (r: Vec<Conversion>)
        ensures
            r@ == spec_take_limit(
                spec_conversions_for(self.records@, word@),
                limit,
            ),
    {
        let mut all: Vec<Conversion> = Vec::new();
        let mut i: usize = 0;
        while i < self.records.len()
            invariant
                i <= self.records@.len(),
                all@ == spec_conversions_for(self.records@.take(i as int), word@),
            decreases self.records@.len() - i,
        {
            proof {
                lemma_conversions_for_step(self.records@, word@, i as int);
            }
            if str_eq(self.records[i].key_sequence.as_str(), word) {
                all.push(self.records[i].clone());
            }
            i = i + 1;
        }
        proof {
            assert(self.records@.take(i as int) =~= self.records@);
        }
        match limit {
            None => all,
            Some(l) => {
                if l < all.len() {
                    all.truncate(l);
                }
                all
            },
        }
    }

    /// Batched lookup: the ranked conversions of every word in `words`, in
    /// word order, each word's block in store order.
    pub fn select_conversions_for_multiple(
        &self,
        tone_mode: ToneMode,
        words: &Vec<String>,
    ) -> (r: Vec<Conversion>)
        ensures
            r@ == spec_conversions_for_all(
                self.records@,
                words@.map_values(|w: String| w@),
            ),
    {
        let ghost ws = words@.map_values(|w: String| w@);
        let mut out: Vec<Conversion> = Vec::new();
        let mut i: usize = 0;
        while i < words.len()
            invariant
                i <= words@.len(),
                ws == words@.map_values(|w: String| w@),
                out@ == spec_conversions_for_all(self.records@, ws.take(i as int)),
            decreases words@.len() - i,
        {
            let mut block = self.select_conversions(tone_mode, words[i].as_str(), None);
            proof {
                assert(ws.take(i + 1).drop_last() =~= ws.take(i as int));
                assert(ws.take(i + 1).last() == words@[i as int]@);
            }
            let mut j: usize = 0;
            let ghost block0 = block@;
            while j < block.len()
                invariant
                    j <= block@.len(),
                    block@ == block0,
                    out@ == spec_conversions_for_all(self.records@, ws.take(i as int))
                        + block0.take(j as int),
                decreases block@.len() - j,
            {
                out.push(block[j].clone());
                j = j + 1;
                assert(out@ =~= spec_conversions_for_all(self.records@, ws.take(i as int))
                    + block0.take(j as int));
            }
            proof {
                assert(block0.take(block0.len() as int) =~= block0);
                assert(out@ =~= spec_conversions_for_all(self.records@, ws.take(i + 1)));
            }
            i = i + 1;
        }
        proof {
            assert(ws.take(i as int) =~= ws);
        }
        out
    }
}

} // verus!
