//! The converter: turning a raw key buffer into a composition and into a
//! candidate list, consulting the dictionary and the conversion store.

use vstd::prelude::*;

use crate::buffer::spec_elems_raw;
use crate::buffer::Buffer;
use crate::config::Config;
use crate::config::KhinMode;
use crate::config::ToneMode;
use crate::db::spec_conversions_for;
use crate::db::spec_conversions_for_all;
use crate::db::spec_take_limit;
use crate::db::Conversion;
use crate::dict::lemma_best_len;
use crate::dict::lemma_can_segment_decompose;
use crate::dict::lemma_dict_words_have_conversions;
use crate::dict::lemma_words_from_start_prefix;
use crate::dict::spec_can_segment;
use crate::dict::spec_best_len;
use crate::dict::spec_greedy;
use crate::dict::spec_is_tiling;
use crate::dict::spec_keys_dedup;
use crate::dict::spec_words_from_start;
use crate::elem::BufferElement;
use crate::elem::BufferElementEnum;
use crate::elem::KhiinElem;
use crate::elem::StringElem;
use crate::engine::spec_inner_wf;
use crate::engine::EngInner;
use crate::parser::lemma_sections_splittable;
use crate::parser::lemma_sections_tile;
use crate::parser::parse_longest_from_start;
use crate::parser::parse_whole_input;
use crate::parser::spec_section_at;
use crate::parser::spec_sections;
use crate::parser::SectionKind;
use crate::syllable::has_tone_mark;
use crate::syllable::spec_compose;
use crate::syllable::spec_compose_key_sequence;
use crate::syllable::spec_find_mark;
use crate::syllable::spec_stop_coda;
use crate::syllable::spec_strip_tone;
use crate::syllable::strip_tone_diacritic;
use crate::syllable::Syllable;
use crate::text::str_to_chars;
use crate::tone::Tone;

verus! {

/// The top-ranked conversion for a word, where the store has one.
pub open spec fn spec_top_conversion(records: Seq<Conversion>, w: Seq<char>) -> Option<
    Conversion,
> {
    if spec_conversions_for(records, w).len() > 0 {
        Some(spec_conversions_for(records, w)[0])
    } else {
        None
    }
}

/// The raw text, display text and source record of the element one
/// segmented word becomes: a converted unit carrying the word's top-ranked
/// conversion where the store has one, a plain run where it has none.
pub open spec fn spec_word_model(
    records: Seq<Conversion>,
    khin_mode: KhinMode,
    w: Seq<char>,
) -> (Seq<char>, Seq<char>, Option<Conversion>) {
    if spec_conversions_for(records, w).len() > 0 {
        (w, spec_compose_key_sequence(w, khin_mode), spec_top_conversion(records, w))
    } else {
        (w, w, None)
    }
}

/// The element models of a row of segmented words.
pub open spec fn spec_words_model(
    records: Seq<Conversion>,
    khin_mode: KhinMode,
    ws: Seq<Seq<char>>,
) -> Seq<(Seq<char>, Seq<char>, Option<Conversion>)>
    decreases ws.len(),
{
    if ws.len() == 0 {
        Seq::empty()
    } else {
        spec_words_model(records, khin_mode, ws.drop_last()).push(
            spec_word_model(records, khin_mode, ws.last()),
        )
    }
}

/// The element models of one section: a splittable section becomes one
/// element per greedily segmented word, anything else one plain element.
pub open spec fn spec_section_model(
    records: Seq<Conversion>,
    words: Seq<Seq<char>>,
    khin_mode: KhinMode,
    kind: SectionKind,
    text: Seq<char>,
) -> Seq<(Seq<char>, Seq<char>, Option<Conversion>)> {
    if kind == SectionKind::Splittable {
        spec_words_model(records, khin_mode, spec_greedy(words, text))
    } else {
        seq![(text, text, Option::<Conversion>::None)]
    }
}

/// The element models of a whole partition.
pub open spec fn spec_sections_model(
    records: Seq<Conversion>,
    words: Seq<Seq<char>>,
    khin_mode: KhinMode,
    secs: Seq<(SectionKind, Seq<char>)>,
) -> Seq<(Seq<char>, Seq<char>, Option<Conversion>)>
    decreases secs.len(),
{
    if secs.len() == 0 {
        Seq::empty()
    } else {
        spec_sections_model(records, words, khin_mode, secs.drop_last()) + spec_section_model(
            records,
            words,
            khin_mode,
            secs.last().0,
            secs.last().1,
        )
    }
}

/// The element models of a full conversion of `raw`.
pub open spec fn spec_convert_all_model(
    records: Seq<Conversion>,
    words: Seq<Seq<char>>,
    khin_mode: KhinMode,
    raw: Seq<char>,
) -> Seq<(Seq<char>, Seq<char>, Option<Conversion>)> {
    spec_sections_model(records, words, khin_mode, spec_sections(words, raw))
}

/// The words of a prefix lookup whose remainders are segmentable.
pub open spec fn spec_feasible_words(
    list: Seq<Seq<char>>,
    words: Seq<Seq<char>>,
    q: Seq<char>,
) -> Seq<Seq<char>>
    decreases list.len(),
{
    if list.len() == 0 {
        Seq::empty()
    } else {
        let rest = spec_feasible_words(list.drop_last(), words, q);
        if spec_can_segment(words, q.skip(list.last().len() as int)) {
            rest.push(list.last())
        } else {
            rest
        }
    }
}

/// The conversions whose key sequence covers the whole query or leaves a
/// segmentable remainder.
pub open spec fn spec_filter_feasible_convs(
    convs: Seq<Conversion>,
    words: Seq<Seq<char>>,
    q: Seq<char>,
) -> Seq<Conversion>
    decreases convs.len(),
{
    if convs.len() == 0 {
        Seq::empty()
    } else {
        let rest = spec_filter_feasible_convs(convs.drop_last(), words, q);
        let c = convs.last();
        if c.key_sequence@.len() >= q.len() || spec_can_segment(
            words,
            q.skip(c.key_sequence@.len() as int),
        ) {
            rest.push(c)
        } else {
            rest
        }
    }
}

/// The conversion records behind the candidate list for a splittable
/// query: the batched lookups of every feasible prefix word, filtered by
/// remainder segmentability, in store order.
pub open spec fn spec_candidate_convs(
    records: Seq<Conversion>,
    words: Seq<Seq<char>>,
    q: Seq<char>,
) -> Seq<Conversion> {
    spec_filter_feasible_convs(
        spec_conversions_for_all(
            records,
            spec_feasible_words(spec_words_from_start(words, q), words, q),
        ),
        words,
        q,
    )
}

/// The conversion records behind the candidate list for a whole raw
/// buffer: those of the longest splittable prefix, or none where the
/// buffer opens with another kind of section.
pub open spec fn spec_get_candidates_convs(
    records: Seq<Conversion>,
    words: Seq<Seq<char>>,
    raw: Seq<char>,
) -> Seq<Conversion> {
    let sec = spec_section_at(words, raw);
    if sec.0 == SectionKind::Splittable {
        spec_candidate_convs(records, words, raw.take(sec.1 as int))
    } else {
        Seq::empty()
    }
}

/// What each candidate buffer shows for its conversion record: one
/// converted element carrying the record's key sequence as raw text and
/// the record's own display form.
pub open spec fn spec_candidate_buffer(b: Buffer, c: Conversion, khin_mode: KhinMode) -> bool {
    &&& b.elems@.len() == 1
    &&& b.elems@[0].raw_spec() == c.key_sequence@
    &&& b.elems@[0].display_spec() == c.spec_display()
    &&& b.elems@[0].composed_spec() == spec_compose_key_sequence(c.key_sequence@, khin_mode)
    &&& b.elems@[0].converted_spec()
    &&& b.elems@[0].candidate_spec() == Some(c)
    &&& !b.elems@[0].is_action_spec()
}

/// Converts one splittable section: segment it greedily and take the top
/// conversion of each word.
fn convert_section(inner: &EngInner, section: &str) -> (r: Vec<BufferElementEnum>)
    requires
        spec_inner_wf(inner),
        spec_can_segment(inner.dict.spec_words(), section@),
    ensures
        r@.map_values(|e: BufferElementEnum| (e.raw_spec(), e.display_spec(), e.candidate_spec()))
            == spec_words_model(
            inner.db.records@,
            inner.conf.khin_mode,
            spec_greedy(inner.dict.spec_words(), section@),
        ),
        spec_elems_raw(r@) == section@,
        forall|i: int|
            0 <= i < r@.len() ==> !(#[trigger] r@[i]).converted_spec() && !r@[i].is_action_spec(),
{
    let ghost words = inner.dict.spec_words();
    let ghost records = inner.db.records@;
    let ghost khin_mode = inner.conf.khin_mode;
    let parts = match inner.dict.segment(section) {
        Ok(parts) => parts,
        Err(_) => {
            proof {
                assert(false);
            }
            Vec::new()
        },
    };
    let ghost pviews = parts@.map_values(|w: String| w@);
    proof {
        lemma_dict_words_have_conversions(records);
    }
    let mut out: Vec<BufferElementEnum> = Vec::new();
    let mut i: usize = 0;
    proof {
        assert(out@.map_values(
            |e: BufferElementEnum| (e.raw_spec(), e.display_spec(), e.candidate_spec()),
        ) =~= Seq::<(Seq<char>, Seq<char>, Option<Conversion>)>::empty());
        assert(spec_elems_raw(out@) =~= Seq::<char>::empty());
        assert(pviews.take(0).flatten() =~= Seq::<char>::empty());
    }
    while i < parts.len()
        invariant
            i <= parts@.len(),
            pviews == parts@.map_values(|w: String| w@),
            spec_inner_wf(inner),
            words == inner.dict.spec_words(),
            records == inner.db.records@,
            khin_mode == inner.conf.khin_mode,
            spec_is_tiling(words, section@, pviews),
            forall|w: Seq<char>| #[trigger]
                spec_keys_dedup(records).contains(w) ==> w.len() > 0 && spec_conversions_for(
                    records,
                    w,
                ).len() > 0,
            out@.map_values(|e: BufferElementEnum| (e.raw_spec(), e.display_spec(), e.candidate_spec()))
                == spec_words_model(records, khin_mode, pviews.take(i as int)),
            spec_elems_raw(out@) == pviews.take(i as int).flatten(),
            forall|p: int|
                0 <= p < out@.len() ==> !(#[trigger] out@[p]).converted_spec()
                    && !out@[p].is_action_spec(),
        decreases parts@.len() - i,
    {
        let ghost w = pviews[i as int];
        proof {
            assert(pviews.take(i + 1).drop_last() =~= pviews.take(i as int));
            assert(pviews.take(i + 1).last() == w);
            assert(words.contains(w));
            assert(spec_conversions_for(records, w).len() > 0);
        }
        let word = &parts[i];
        let convs = inner.db.select_conversions(inner.conf.tone_mode(), word.as_str(), Some(1));
        let ghost prior = out@.map_values(|e: BufferElementEnum| (e.raw_spec(), e.display_spec(), e.candidate_spec()));
        let ghost praw = spec_elems_raw(out@);
        let ghost pout = out@;
        if convs.len() > 0 {
            let elem = KhiinElem::from_conversion(word.as_str(), &convs[0], inner.conf.khin_mode());
            out.push(BufferElementEnum::KhiinElem(elem));
        } else {
            proof {
                assert(spec_take_limit(spec_conversions_for(records, w), Some(1usize)).len() > 0);
                assert(false);
            }
            out.push(BufferElementEnum::StringElem(StringElem::from_str(word.as_str())));
        }
        proof {
            assert(out@.map_values(|e: BufferElementEnum| (e.raw_spec(), e.display_spec(), e.candidate_spec()))
                =~= prior.push(spec_word_model(records, khin_mode, w)));
            assert(spec_elems_raw(out@) == praw + w) by {
                assert(out@.drop_last() =~= pout);
                assert(out@.last().raw_spec() == w);
            }
            pviews.take(i as int).lemma_flatten_push(w);
            assert(pviews.take(i as int).push(w) =~= pviews.take(i + 1));
            assert(spec_elems_raw(out@) == pviews.take(i + 1).flatten());
        }
        i = i + 1;
    }
    proof {
        assert(pviews.take(i as int) =~= pviews);
    }
    out
}

/// Converts the whole raw buffer into a composition: plain sections stay
/// as they are, splittable sections become converted units, one per
/// greedily segmented word with its top-ranked conversion. The raw text of
/// the result is exactly the input.
pub fn convert_all(inner: &EngInner, raw_buffer: &str) -> (r: Buffer)
    requires
        spec_inner_wf(inner),
    ensures
        spec_elems_raw(r.elems@) == raw_buffer@,
        r.elems@.map_values(|e: BufferElementEnum| (e.raw_spec(), e.display_spec(), e.candidate_spec()))
            == spec_convert_all_model(
            inner.db.records@,
            inner.dict.spec_words(),
            inner.conf.khin_mode,
            raw_buffer@,
        ),
        forall|i: int|
            0 <= i < r.elems@.len() ==> !(#[trigger] r.elems@[i]).converted_spec()
                && !r.elems@[i].is_action_spec(),
{
    let ghost words = inner.dict.spec_words();
    let ghost records = inner.db.records@;
    let ghost khin_mode = inner.conf.khin_mode;
    let sections = parse_whole_input(&inner.dict, raw_buffer);
    let ghost svs = sections@.map_values(|t: (SectionKind, String)| (t.0, t.1@));
    proof {
        lemma_sections_splittable(words, raw_buffer@);
        lemma_sections_tile(words, raw_buffer@);
    }
    let mut composition = Buffer::new();
    let mut i: usize = 0;
    proof {
        assert(composition.elems@.map_values(
            |e: BufferElementEnum| (e.raw_spec(), e.display_spec(), e.candidate_spec()),
        ) =~= Seq::<(Seq<char>, Seq<char>, Option<Conversion>)>::empty());
        assert(spec_elems_raw(composition.elems@) =~= Seq::<char>::empty());
        assert(svs.take(0).map_values(|t: (SectionKind, Seq<char>)| t.1).flatten() =~= Seq::<
            char,
        >::empty());
    }
    while i < sections.len()
        invariant
            i <= sections@.len(),
            svs == sections@.map_values(|t: (SectionKind, String)| (t.0, t.1@)),
            svs == spec_sections(words, raw_buffer@),
            spec_inner_wf(inner),
            words == inner.dict.spec_words(),
            records == inner.db.records@,
            khin_mode == inner.conf.khin_mode,
            forall|p: int|
                0 <= p < svs.len() && (#[trigger] svs[p]).0 == SectionKind::Splittable
                    ==> spec_can_segment(words, svs[p].1),
            composition.elems@.map_values(|e: BufferElementEnum| (e.raw_spec(), e.display_spec(), e.candidate_spec()))
                == spec_sections_model(records, words, khin_mode, svs.take(i as int)),
            spec_elems_raw(composition.elems@) == svs.take(i as int).map_values(
                |t: (SectionKind, Seq<char>)| t.1,
            ).flatten(),
            forall|p: int|
                0 <= p < composition.elems@.len() ==> !(
                #[trigger] composition.elems@[p]).converted_spec()
                    && !composition.elems@[p].is_action_spec(),
        decreases sections@.len() - i,
    {
        let ghost sv = svs[i as int];
        proof {
            assert(svs.take(i + 1).drop_last() =~= svs.take(i as int));
            assert(svs.take(i + 1).last() == sv);
        }
        let kind = sections[i].0;
        let ghost base = composition.elems@;
        let ghost prior = composition.elems@.map_values(
            |e: BufferElementEnum| (e.raw_spec(), e.display_spec(), e.candidate_spec()),
        );
        let ghost praw = spec_elems_raw(composition.elems@);
        if kind == SectionKind::Splittable {
            let mut elems = convert_section(inner, sections[i].1.as_str());
            let ghost evs = elems@;
            proof {
                assert(evs.skip(0) =~= evs);
                assert(composition.elems@ =~= base + evs.take(0));
            }
            while elems.len() > 0
                invariant
                    elems@.len() <= evs.len(),
                    elems@ == evs.skip(evs.len() - elems@.len()),
                    composition.elems@ == base + evs.take(evs.len() - elems@.len()),
                decreases elems@.len(),
            {
                let ghost j = evs.len() - elems@.len();
                let e = elems.remove(0);
                proof {
                    assert(e == evs[j as int]);
                    assert(evs.skip(j as int).remove(0) =~= evs.skip(j as int + 1));
                }
                composition.push(e);
                proof {
                    assert(composition.elems@ =~= base + evs.take(j as int + 1));
                }
            }
            proof {
                assert(evs.take(evs.len() as int) =~= evs);
                assert(composition.elems@ == base + evs);
                // the models and raw views concatenate
                assert(composition.elems@.map_values(
                    |e: BufferElementEnum| (e.raw_spec(), e.display_spec(), e.candidate_spec()),
                ) =~= prior + evs.map_values(
                    |e: BufferElementEnum| (e.raw_spec(), e.display_spec(), e.candidate_spec()),
                ));
                assert(prior + spec_section_model(records, words, khin_mode, sv.0, sv.1)
                    =~= spec_sections_model(records, words, khin_mode, svs.take(i + 1)));
                crate::buffer::lemma_elems_raw_concat(base, evs);
                svs.take(i as int).map_values(
                    |t: (SectionKind, Seq<char>)| t.1,
                ).lemma_flatten_push(sv.1);
                assert(svs.take(i as int).map_values(|t: (SectionKind, Seq<char>)| t.1).push(sv.1)
                    =~= svs.take(i + 1).map_values(|t: (SectionKind, Seq<char>)| t.1));
            }
        } else {
            let elem = StringElem::from_str(sections[i].1.as_str());
            let ghost pelems = composition.elems@;
            composition.push(BufferElementEnum::StringElem(elem));
            proof {
                assert(composition.elems@.drop_last() =~= pelems);
                assert(composition.elems@.map_values(
                    |e: BufferElementEnum| (e.raw_spec(), e.display_spec(), e.candidate_spec()),
                ) =~= prior.push((sv.1, sv.1, Option::<Conversion>::None)));
                assert(prior.push((sv.1, sv.1, Option::<Conversion>::None)) =~= prior + seq![
                    (sv.1, sv.1, Option::<Conversion>::None),
                ]);
                assert(prior + spec_section_model(records, words, khin_mode, sv.0, sv.1)
                    =~= spec_sections_model(records, words, khin_mode, svs.take(i + 1)));
                svs.take(i as int).map_values(
                    |t: (SectionKind, Seq<char>)| t.1,
                ).lemma_flatten_push(sv.1);
                assert(svs.take(i as int).map_values(|t: (SectionKind, Seq<char>)| t.1).push(sv.1)
                    =~= svs.take(i + 1).map_values(|t: (SectionKind, Seq<char>)| t.1));
            }
        }
        i = i + 1;
    }
    proof {
        assert(svs.take(sections@.len() as int) =~= svs);
        assert(svs.map_values(|t: (SectionKind, Seq<char>)| t.1).flatten() == raw_buffer@);
    }
    composition
}

/// Candidate buffers for a splittable query: every dictionary word that
/// prefixes the query and leaves a segmentable remainder contributes its
/// ranked conversions, each shown as one converted element.
pub fn candidates_for_splittable(inner: &EngInner, query: &str) -> (r: Vec<Buffer>)
    requires
        spec_inner_wf(inner),
    ensures
        r@.len() == spec_candidate_convs(
            inner.db.records@,
            inner.dict.spec_words(),
            query@,
        ).len(),
        forall|i: int|
            0 <= i < r@.len() ==> spec_candidate_buffer(
                #[trigger] r@[i],
                spec_candidate_convs(inner.db.records@, inner.dict.spec_words(), query@)[i],
                inner.conf.khin_mode,
            ),
{
    let ghost words = inner.dict.spec_words();
    let ghost records = inner.db.records@;
    let ghost q = query@;
    let from_start = inner.dict.all_words_from_start(query);
    let ghost fsv = from_start@.map_values(|w: String| w@);
    proof {
        lemma_words_from_start_prefix(words, q);
    }
    let qn = query.unicode_len();

    // keep the words whose remainder after the prefix is segmentable
    let mut kept: Vec<String> = Vec::new();
    let mut i: usize = 0;
    proof {
        assert(kept@.map_values(|w: String| w@) =~= Seq::<Seq<char>>::empty());
    }
    while i < from_start.len()
        invariant
            i <= from_start@.len(),
            fsv == from_start@.map_values(|w: String| w@),
            fsv == spec_words_from_start(words, q),
            qn == q.len(),
            q == query@,
            spec_inner_wf(inner),
            words == inner.dict.spec_words(),
            forall|p: int|
                0 <= p < fsv.len() ==> (#[trigger] fsv[p]).is_prefix_of(q),
            kept@.map_values(|w: String| w@) == spec_feasible_words(
                fsv.take(i as int),
                words,
                q,
            ),
        decreases from_start@.len() - i,
    {
        proof {
            assert(fsv.take(i + 1).drop_last() =~= fsv.take(i as int));
            assert(fsv.take(i + 1).last() == fsv[i as int]);
            assert(fsv[i as int].is_prefix_of(q));
        }
        let wl = from_start[i].as_str().unicode_len();
        let rest = query.substring_char(wl, qn);
        proof {
            assert(rest@ =~= q.skip(wl as int));
        }
        if inner.dict.can_segment(rest) {
            let ghost prior = kept@.map_values(|w: String| w@);
            kept.push(from_start[i].clone());
            proof {
                assert(kept@.map_values(|w: String| w@) =~= prior.push(fsv[i as int]));
            }
        }
        i = i + 1;
    }
    proof {
        assert(fsv.take(i as int) =~= fsv);
    }

    // batch the store lookup, then keep the conversions whose remainder is
    // segmentable too
    let convs = inner.db.select_conversions_for_multiple(inner.conf.tone_mode(), &kept);
    let ghost cs = convs@;
    let mut result: Vec<Buffer> = Vec::new();
    let mut j: usize = 0;
    while j < convs.len()
        invariant
            j <= convs@.len(),
            convs@ == cs,
            qn == q.len(),
            q == query@,
            spec_inner_wf(inner),
            words == inner.dict.spec_words(),
            records == inner.db.records@,
            result@.len() == spec_filter_feasible_convs(cs.take(j as int), words, q).len(),
            forall|p: int|
                0 <= p < result@.len() ==> spec_candidate_buffer(
                    #[trigger] result@[p],
                    spec_filter_feasible_convs(cs.take(j as int), words, q)[p],
                    inner.conf.khin_mode,
                ),
        decreases convs@.len() - j,
    {
        proof {
            assert(cs.take(j + 1).drop_last() =~= cs.take(j as int));
            assert(cs.take(j + 1).last() == cs[j as int]);
        }
        let klen = convs[j].key_sequence.as_str().unicode_len();
        let feasible = if klen >= qn {
            true
        } else {
            let rest = query.substring_char(klen, qn);
            proof {
                assert(rest@ =~= q.skip(klen as int));
            }
            inner.dict.can_segment(rest)
        };
        if feasible {
            let elem = KhiinElem::from_conversion(
                convs[j].key_sequence.as_str(),
                &convs[j],
                inner.conf.khin_mode(),
            );
            let mut e = BufferElementEnum::KhiinElem(elem);
            e.set_converted(true);
            let mut b = Buffer::new();
            b.push(e);
            let ghost plen = result@.len();
            result.push(b);
            proof {
                assert(spec_filter_feasible_convs(cs.take(j + 1), words, q)
                    == spec_filter_feasible_convs(cs.take(j as int), words, q).push(
                    cs[j as int],
                ));
                assert(spec_candidate_buffer(
                    result@[plen as int],
                    cs[j as int],
                    inner.conf.khin_mode,
                ));
            }
        }
        j = j + 1;
    }
    proof {
        assert(cs.take(j as int) =~= cs);
    }
    result
}

/// Candidate buffers for the whole raw buffer: those of the longest
/// splittable prefix; a buffer opening with any other kind of section has
/// no candidates.
pub fn get_candidates(inner: &EngInner, raw_buffer: &str) -> (r: Vec<Buffer>)
    requires
        spec_inner_wf(inner),
    ensures
        r@.len() == spec_get_candidates_convs(
            inner.db.records@,
            inner.dict.spec_words(),
            raw_buffer@,
        ).len(),
        forall|i: int|
            0 <= i < r@.len() ==> spec_candidate_buffer(
                #[trigger] r@[i],
                spec_get_candidates_convs(
                    inner.db.records@,
                    inner.dict.spec_words(),
                    raw_buffer@,
                )[i],
                inner.conf.khin_mode,
            ),
{
    let ghost words = inner.dict.spec_words();
    let (kind, len) = parse_longest_from_start(&inner.dict, raw_buffer);
    if kind == SectionKind::Splittable {
        proof {
            assert(raw_buffer@.len() > 0);
            crate::parser::lemma_section_at(words, raw_buffer@);
        }
        let n = raw_buffer.unicode_len();
        let query = raw_buffer.substring_char(0, len);
        proof {
            assert(query@ =~= raw_buffer@.take(len as int));
        }
        candidates_for_splittable(inner, query)
    } else {
        Vec::new()
    }
}

/// The composed text the Telex conversion produces: the old diacritic is
/// stripped, the key replaces the tone, marks khin, or joins the body.
/// Tone 8 demands a stop coda: the tone-8 key pressed on a body without
/// one keeps its other meaning, a plain letter joining the body; where it
/// doubles as another tone key, that tone stands and a stop coda still
/// takes tone 8.
pub open spec fn spec_convert_to_telex_text(conf: Config, raw: Seq<char>, key: char) -> Seq<
    char,
> {
    let stripped = spec_strip_tone(raw).0;
    let tone0 = spec_strip_tone(raw).1;
    let keys = conf.spec_telex_keys();
    if tone0 != Tone::T1 || spec_find_mark(raw, 0) < raw.len() {
        let earlier = key == keys.t2 || key == keys.t3 || key == keys.t5 || key == keys.t6
            || key == keys.t7 || key == keys.t9;
        let is_t8 = !earlier && key == keys.t8;
        let is_khin = !earlier && key != keys.t8 && key == keys.khin;
        let body = if earlier || is_khin || (is_t8 && spec_stop_coda(stripped)) {
            stripped
        } else {
            stripped.push(key)
        };
        let tone1 = if key == keys.t2 {
            Tone::T2
        } else if key == keys.t3 {
            Tone::T3
        } else if key == keys.t5 {
            Tone::T5
        } else if key == keys.t6 {
            Tone::T6
        } else if key == keys.t7 {
            Tone::T7
        } else if key == keys.t9 {
            Tone::T9
        } else if is_t8 && spec_stop_coda(stripped) {
            Tone::T8
        } else {
            Tone::T1
        };
        let tone = if key == keys.t8 && earlier && tone1 != Tone::T8 && spec_stop_coda(body) {
            Tone::T8
        } else {
            tone1
        };
        spec_compose(body, tone, is_khin, conf.khin_mode)
    } else {
        spec_compose(stripped.push(key), Tone::T1, false, conf.khin_mode)
    }
}

/// Applies one Telex keystroke to the current composed syllable: the
/// result is a single plain element holding the newly composed text.
pub fn convert_to_telex(inner: &EngInner, raw_buffer: &str, key: char) -> (r: Buffer)
    ensures
        r.elems@.len() == 1,
        r.elems@[0].raw_spec() == spec_convert_to_telex_text(inner.conf, raw_buffer@, key),
        r.elems@[0].display_spec() == r.elems@[0].raw_spec(),
        r.elems@[0].composed_spec() == r.elems@[0].raw_spec(),
        !r.elems@[0].converted_spec(),
        !r.elems@[0].is_action_spec(),
        spec_elems_raw(r.elems@) == spec_convert_to_telex_text(inner.conf, raw_buffer@, key),
{
    let (stripped, tone0) = strip_tone_diacritic(raw_buffer);
    let marked = has_tone_mark(raw_buffer);
    let mut body = str_to_chars(stripped.as_str());
    let mut tone = Tone::T1;
    let mut khin = false;
    if tone0 != Tone::T1 || marked {
        if key == inner.conf.t2() {
            tone = Tone::T2;
        } else if key == inner.conf.t3() {
            tone = Tone::T3;
        } else if key == inner.conf.t5() {
            tone = Tone::T5;
        } else if key == inner.conf.t6() {
            tone = Tone::T6;
        } else if key == inner.conf.t7() {
            tone = Tone::T7;
        } else if key == inner.conf.t9() {
            tone = Tone::T9;
        } else if key == inner.conf.t8() {
            // tone 8 demands a stop coda; without one the key keeps its
            // other meaning and joins the body as a plain letter
            if crate::syllable::stop_coda(&body) {
                tone = Tone::T8;
            } else {
                body.push(key);
            }
        } else if key == inner.conf.khin() {
            khin = true;
        } else {
            body.push(key);
        }
        if key == inner.conf.t8() && tone != Tone::T8 && tone != Tone::T1 {
            // where the tone-8 key doubles as another tone key, a stop
            // coda still takes tone 8
            if crate::syllable::stop_coda(&body) {
                tone = Tone::T8;
            }
        }
    } else {
        body.push(key);
    }
    let word = Syllable {
        raw_input: String::new(),
        raw_body: crate::text::chars_to_string(&body),
        tone,
        khin,
    };
    let text = word.compose(inner.conf.khin_mode());
    let mut composition = Buffer::new();
    composition.push(
        BufferElementEnum::StringElem(StringElem::from_str(text.as_str())),
    );
    proof {
        assert(composition.elems@.len() == 1);
        assert(composition.elems@.last() == composition.elems@[0]);
        assert(composition.elems@.drop_last() =~= Seq::<BufferElementEnum>::empty());
        assert(spec_elems_raw(composition.elems@.drop_last()) =~= Seq::<char>::empty());
        assert(spec_elems_raw(composition.elems@) =~= Seq::<char>::empty()
            + composition.elems@[0].raw_spec());
        assert(spec_elems_raw(composition.elems@) =~= composition.elems@[0].raw_spec());
    }
    composition
}

/// One segmented word, one element: the model is as long as the word row.
pub proof fn lemma_words_model_len(
    records: Seq<Conversion>,
    khin_mode: KhinMode,
    ws: Seq<Seq<char>>,
)
    ensures
        spec_words_model(records, khin_mode, ws).len() == ws.len(),
    decreases ws.len(),
{
    if ws.len() > 0 {
        lemma_words_model_len(records, khin_mode, ws.drop_last());
    }
}

/// A non-empty segmentable string has a non-empty greedy segmentation.
pub proof fn lemma_greedy_nonempty(words: Seq<Seq<char>>, s: Seq<char>)
    requires
        spec_can_segment(words, s),
        s.len() > 0,
    ensures
        spec_greedy(words, s).len() > 0,
{
    lemma_can_segment_decompose(words, s);
    let k = choose|k: int|
        1 <= k <= s.len() && words.contains(#[trigger] s.take(k)) && spec_can_segment(
            words,
            s.skip(k),
        );
    lemma_best_len(words, s, s.len());
    assert(k <= spec_best_len(words, s, s.len()));
}

/// A non-empty raw buffer never converts to an empty composition: its
/// partition is non-empty, and every section contributes at least one
/// element.
pub proof fn lemma_convert_all_model_nonempty(
    records: Seq<Conversion>,
    words: Seq<Seq<char>>,
    khin_mode: KhinMode,
    raw: Seq<char>,
)
    requires
        raw.len() > 0,
    ensures
        spec_convert_all_model(records, words, khin_mode, raw).len() > 0,
{
    let secs = spec_sections(words, raw);
    lemma_sections_tile(words, raw);
    lemma_sections_splittable(words, raw);
    if secs.len() == 0 {
        assert(secs.map_values(|t: (SectionKind, Seq<char>)| t.1).flatten() =~= Seq::<
            char,
        >::empty());
        assert(false);
    }
    let last = secs.last();
    assert(spec_sections_model(records, words, khin_mode, secs)
        == spec_sections_model(records, words, khin_mode, secs.drop_last())
        + spec_section_model(records, words, khin_mode, last.0, last.1));
    assert(last == secs[secs.len() - 1]);
    assert(last.1.len() > 0);
    if last.0 == SectionKind::Splittable {
        assert(spec_can_segment(words, last.1));
        lemma_greedy_nonempty(words, last.1);
        lemma_words_model_len(records, khin_mode, spec_greedy(words, last.1));
    }
}

} // verus!
