//! The composition buffer: an ordered sequence of elements with derived
//! raw, composed and display views, and the preedit built from them.

use vstd::prelude::*;
use vstd::string::StringExecFns;

use crate::command::Preedit;
use crate::command::Segment;
use crate::command::SegmentStatus;
use crate::elem::BufferElement;
use crate::elem::BufferElementEnum;

verus! {

/// The raw keystrokes of a row of elements, concatenated.
pub open spec fn spec_elems_raw(elems: Seq<BufferElementEnum>) -> Seq<char>
    decreases elems.len(),
{
    if elems.len() == 0 {
        Seq::empty()
    } else {
        spec_elems_raw(elems.drop_last()) + elems.last().raw_spec()
    }
}

/// Concatenating two rows of elements concatenates their raw views.
pub proof fn lemma_elems_raw_concat(a: Seq<BufferElementEnum>, b: Seq<BufferElementEnum>)
    ensures
        spec_elems_raw(a + b) == spec_elems_raw(a) + spec_elems_raw(b),
    decreases b.len(),
{
    if b.len() == 0 {
        assert(a + b =~= a);
        assert(spec_elems_raw(a) + spec_elems_raw(b) =~= spec_elems_raw(a));
    } else {
        lemma_elems_raw_concat(a, b.drop_last());
        assert((a + b).drop_last() =~= a + b.drop_last());
        assert((a + b).last() == b.last());
        assert(spec_elems_raw(a) + spec_elems_raw(b.drop_last()) + b.last().raw_spec()
            =~= spec_elems_raw(a) + spec_elems_raw(b));
    }
}

/// The composed forms of a row of elements, concatenated.
pub open spec fn spec_elems_composed(elems: Seq<BufferElementEnum>) -> Seq<char>
    decreases elems.len(),
{
    if elems.len() == 0 {
        Seq::empty()
    } else {
        spec_elems_composed(elems.drop_last()) + elems.last().composed_spec()
    }
}

/// The display forms of a row of elements, concatenated.
pub open spec fn spec_elems_display(elems: Seq<BufferElementEnum>) -> Seq<char>
    decreases elems.len(),
{
    if elems.len() == 0 {
        Seq::empty()
    } else {
        spec_elems_display(elems.drop_last()) + elems.last().display_spec()
    }
}

/// The status a segment of element `i` carries: spacers are unmarked,
/// converted elements are converted (focused where `i` is the focused
/// element), everything else is still composing.
pub open spec fn spec_elem_status(e: BufferElementEnum, focused: bool) -> SegmentStatus {
    if e is Spacer {
        SegmentStatus::Unmarked
    } else if e.converted_spec() {
        if focused {
            SegmentStatus::Focused
        } else {
            SegmentStatus::Converted
        }
    } else {
        SegmentStatus::Composing
    }
}

/// The preedit segments of a row of elements: each element's display text
/// under its status, with adjacent runs of one status merged into one
/// segment.
pub open spec fn spec_segments(
    elems: Seq<BufferElementEnum>,
    focused: Option<int>,
) -> Seq<(SegmentStatus, Seq<char>)>
    decreases elems.len(),
{
    if elems.len() == 0 {
        Seq::empty()
    } else {
        let rest = spec_segments(elems.drop_last(), focused);
        let st = spec_elem_status(elems.last(), focused == Some(elems.len() - 1 as int));
        let tx = elems.last().display_spec();
        if rest.len() > 0 && rest.last().0 == st {
            rest.update(rest.len() - 1 as int, (st, rest.last().1 + tx))
        } else {
            rest.push((st, tx))
        }
    }
}

/// The composition buffer: an ordered row of elements.
#[derive(Debug)]
pub struct Buffer {
    pub elems: Vec<BufferElementEnum>,
}

impl Buffer {
    /// An empty composition.
    pub fn new() -> (r: Buffer)
        ensures
            r.elems@.len() == 0,
    {
        Buffer { elems: Vec::new() }
    }

    /// Whether the composition holds no elements.
    pub fn is_empty(&self) -> (r: bool)
        ensures
            r == (self.elems@.len() == 0),
    {
        self.elems.len() == 0
    }

    /// Appends one element.
    pub fn push(&mut self, elem: BufferElementEnum)
        ensures
            final(self).elems@ == old(self).elems@.push(elem),
    {
        self.elems.push(elem);
    }

    /// Moves every element of `other` to the end of this composition.
    pub fn append(&mut self, other: Buffer)
        ensures
            final(self).elems@ == old(self).elems@ + other.elems@,
    {
        let ghost base = self.elems@;
        let ghost evs = other.elems@;
        let mut src = other;
        proof {
            assert(evs.skip(0) =~= evs);
            assert(self.elems@ =~= base + evs.take(0));
        }
        while src.elems.len() > 0
            invariant
                src.elems@.len() <= evs.len(),
                src.elems@ == evs.skip(evs.len() - src.elems@.len()),
                self.elems@ == base + evs.take(evs.len() - src.elems@.len()),
            decreases src.elems@.len(),
        {
            let ghost j = evs.len() - src.elems@.len();
            let e = src.elems.remove(0);
            proof {
                assert(e == evs[j as int]);
                assert(evs.skip(j as int).remove(0) =~= evs.skip(j as int + 1));
            }
            self.elems.push(e);
            proof {
                assert(self.elems@ =~= base + evs.take(j as int + 1));
            }
        }
        proof {
            assert(evs.take(evs.len() as int) =~= evs);
        }
    }

    /// The concatenated raw keystrokes of the composition.
    pub fn raw_text(&self) -> (r: String)
        ensures
            r@ == spec_elems_raw(self.elems@),
    {
        let mut out = String::new();
        let mut i: usize = 0;
        while i < self.elems.len()
            invariant
                i <= self.elems@.len(),
                out@ == spec_elems_raw(self.elems@.take(i as int)),
            decreases self.elems@.len() - i,
        {
            proof {
                assert(self.elems@.take(i + 1).drop_last() =~= self.elems@.take(i as int));
                assert(self.elems@.take(i + 1).last() == self.elems@[i as int]);
            }
            let t = self.elems[i].raw_text();
            out.append(t.as_str());
            i = i + 1;
        }
        proof {
            assert(self.elems@.take(i as int) =~= self.elems@);
        }
        out
    }

    /// The number of characters of the raw view.
    pub fn raw_char_count(&self) -> (r: usize)
        ensures
            r as nat == spec_elems_raw(self.elems@).len(),
    {
        self.raw_text().as_str().unicode_len()
    }

    /// The concatenated composed forms.
    pub fn composed_text(&self) -> (r: String)
        ensures
            r@ == spec_elems_composed(self.elems@),
    {
        let mut out = String::new();
        let mut i: usize = 0;
        while i < self.elems.len()
            invariant
                i <= self.elems@.len(),
                out@ == spec_elems_composed(self.elems@.take(i as int)),
            decreases self.elems@.len() - i,
        {
            proof {
                assert(self.elems@.take(i + 1).drop_last() =~= self.elems@.take(i as int));
                assert(self.elems@.take(i + 1).last() == self.elems@[i as int]);
            }
            let t = self.elems[i].composed_text();
            out.append(t.as_str());
            i = i + 1;
        }
        proof {
            assert(self.elems@.take(i as int) =~= self.elems@);
        }
        out
    }

    /// The concatenated display forms.
    pub fn display_text(&self) -> (r: String)
        ensures
            r@ == spec_elems_display(self.elems@),
    {
        let mut out = String::new();
        let mut i: usize = 0;
        while i < self.elems.len()
            invariant
                i <= self.elems@.len(),
                out@ == spec_elems_display(self.elems@.take(i as int)),
            decreases self.elems@.len() - i,
        {
            proof {
                assert(self.elems@.take(i + 1).drop_last() =~= self.elems@.take(i as int));
                assert(self.elems@.take(i + 1).last() == self.elems@[i as int]);
            }
            let t = self.elems[i].display_text();
            out.append(t.as_str());
            i = i + 1;
        }
        proof {
            assert(self.elems@.take(i as int) =~= self.elems@);
        }
        out
    }

    /// The number of characters of the display view.
    pub fn display_char_count(&self) -> (r: usize)
        ensures
            r as nat == spec_elems_display(self.elems@).len(),
    {
        self.display_text().as_str().unicode_len()
    }

    /// Sets the converted flag on every element.
    pub fn set_converted(&mut self, converted: bool)
        ensures
            final(self).elems@.len() == old(self).elems@.len(),
            forall|i: int|
                0 <= i < old(self).elems@.len() ==> final(self).elems@[i] == (
                #[trigger] old(self).elems@[i]).with_converted_spec(converted),
    {
        let n = self.elems.len();
        let mut i: usize = 0;
        while i < n
            invariant
                i <= n,
                n == self.elems@.len(),
                forall|j: int|
                    0 <= j < i ==> self.elems@[j] == (
                    #[trigger] old(self).elems@[j]).with_converted_spec(converted),
                forall|j: int| i <= j < n ==> self.elems@[j] == old(self).elems@[j],
            decreases n - i,
        {
            let mut e = self.elems.remove(i);
            e.set_converted(converted);
            self.elems.insert(i, e);
            i = i + 1;
        }
    }

    /// Builds the preedit: the merged display segments, with the caret at
    /// the end of the display text.
    pub fn build_preedit(&self, focused: Option<usize>) -> (r: Preedit)
        ensures
            r.segments@.map_values(|s: Segment| (s.status, s.value@)) == spec_segments(
                self.elems@,
                match focused {
                    Some(f) => Some(f as int),
                    None => None,
                },
            ),
            r.caret as nat == spec_elems_display(self.elems@).len(),
            r.focused_caret == r.caret,
    {
        let ghost gf: Option<int> = match focused {
            Some(f) => Some(f as int),
            None => None,
        };
        let mut segments: Vec<Segment> = Vec::new();
        let mut i: usize = 0;
        while i < self.elems.len()
            invariant
                i <= self.elems@.len(),
                gf == (match focused {
                    Some(f) => Some(f as int),
                    None => None,
                }),
                segments@.map_values(|s: Segment| (s.status, s.value@)) == spec_segments(
                    self.elems@.take(i as int),
                    gf,
                ),
            decreases self.elems@.len() - i,
        {
            proof {
                assert(self.elems@.take(i + 1).drop_last() =~= self.elems@.take(i as int));
                assert(self.elems@.take(i + 1).last() == self.elems@[i as int]);
            }
            let e = &self.elems[i];
            let focused_here = match focused {
                Some(f) => f == i,
                None => false,
            };
            let st = if e.is_converted() {
                if focused_here {
                    SegmentStatus::Focused
                } else {
                    SegmentStatus::Converted
                }
            } else if e.is_action() {
                SegmentStatus::Composing
            } else {
                match e {
                    BufferElementEnum::Spacer(_) => SegmentStatus::Unmarked,
                    _ => SegmentStatus::Composing,
                }
            };
            proof {
                assert(st == spec_elem_status(self.elems@[i as int], gf == Some(i as int)));
            }
            let tx = e.display_text();
            let ghost prior = segments@.map_values(|s: Segment| (s.status, s.value@));
            let mut merged = false;
            if segments.len() > 0 {
                let lastst = segments[segments.len() - 1].status;
                if lastst == st {
                    let mut lastseg = match segments.pop() {
                        Some(sg) => sg,
                        None => Segment { value: String::new(), status: st },
                    };
                    lastseg.value.append(tx.as_str());
                    segments.push(lastseg);
                    merged = true;
                    proof {
                        assert(segments@.map_values(|s: Segment| (s.status, s.value@))
                            =~= prior.update(
                            prior.len() - 1 as int,
                            (st, prior.last().1 + self.elems@[i as int].display_spec()),
                        ));
                    }
                }
            }
            if !merged {
                segments.push(Segment { value: tx, status: st });
                proof {
                    assert(segments@.map_values(|s: Segment| (s.status, s.value@))
                        =~= prior.push((st, self.elems@[i as int].display_spec())));
                }
            }
            i = i + 1;
        }
        proof {
            assert(self.elems@.take(i as int) =~= self.elems@);
        }
        let caret = self.display_char_count();
        Preedit { segments, caret, focused_caret: caret }
    }
}

} // verus!
