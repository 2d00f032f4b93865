//! Rendering helpers for a terminal host: the candidate page as numbered
//! lines, and the preedit as one display row with an underline-attribute
//! row and a caret column.

use vstd::prelude::*;
use vstd::string::StringExecFns;

use crate::command::CandidateList;
use crate::command::Preedit;
use crate::command::Segment;
use crate::command::SegmentStatus;

verus! {

/// The displayed column width of a string, as the terminal draws it.
pub uninterp spec fn spec_display_width(s: Seq<char>) -> nat;

/// Relies on unicode-width's `UnicodeWidthStr::width`: the displayed
/// column count of a string, a function of its characters alone; the
/// empty string takes no columns.
#[verifier::external_body]
fn text_width(s: &str) -> (r: usize)
    ensures
        r == spec_display_width(s@),
        s@.len() == 0 ==> r == 0,
{
    unicode_width::UnicodeWidthStr::width(s)
}

/// The half-open index range of the page holding `index`, over
/// `item_count` items in pages of `page_size`.
pub fn page_range(item_count: usize, page_size: usize, index: usize) -> (r: (usize, usize))
    requires
        page_size > 0,
        index < item_count,
    ensures
        r.0 == (index / page_size) * page_size,
        r.1 == (if r.0 + page_size <= item_count {
            r.0 + page_size
        } else {
            item_count as int
        }),
        r.0 <= index < r.1 <= item_count,
{
    let q = index / page_size;
    proof {
        assert(q * page_size <= index && index < q * page_size + page_size) by (nonlinear_arith)
            requires
                page_size > 0,
                q == index / page_size,
        ;
    }
    let start = q * page_size;
    let end = if item_count - start < page_size {
        item_count
    } else {
        start + page_size
    };
    (start, end)
}

/// One line of the candidate page: a focus star or a space, the 1-based
/// in-page number, a dot, a space, and the candidate's text.
pub open spec fn spec_candidate_line(cl: CandidateList, i: int) -> Seq<char> {
    let star: Seq<char> = if cl.focused == Some(i as usize) {
        seq!['*']
    } else {
        seq![' ']
    };
    let num = ((48 + (i % 9) + 1) as u8) as char;
    star + seq![num, '.', ' '] + cl.candidates@[i].value@
}

/// The index range of the page in view: the focused candidate's page, or
/// the current page field without a focus; out-of-range fields show
/// nothing.
pub open spec fn spec_candidate_page_range(cl: CandidateList) -> (int, int) {
    let count = cl.candidates@.len() as int;
    match cl.focused {
        Some(f) => if f < count {
            let start = (f as int / 9) * 9;
            (start, if start + 9 <= count {
                start + 9
            } else {
                count
            })
        } else {
            (0, 0)
        },
        None => if cl.page <= count / 9 {
            let start = cl.page * 9;
            (start, if start + 9 <= count {
                start + 9
            } else {
                count
            })
        } else {
            (0, 0)
        },
    }
}

/// The candidate lines of the page in view, numbered 1 to 9 and starred
/// at the focus.
pub fn get_candidate_page(cl: &CandidateList) -> (r: Vec<String>)
    ensures
        r@.len() == spec_candidate_page_range(*cl).1 - spec_candidate_page_range(*cl).0,
        forall|j: int|
            0 <= j < r@.len() ==> (#[trigger] r@[j])@ == spec_candidate_line(
                *cl,
                spec_candidate_page_range(*cl).0 + j,
            ),
{
    let count = cl.candidates.len();
    let (start, end) = match cl.focused {
        Some(f) => {
            if f < count {
                page_range(count, 9, f)
            } else {
                (0, 0)
            }
        },
        None => {
            if cl.page <= count / 9 {
                let start = cl.page * 9;
                proof {
                    assert(cl.page * 9 <= (count / 9) * 9) by (nonlinear_arith)
                        requires
                            cl.page <= count / 9,
                    ;
                    assert((count / 9) * 9 <= count) by (nonlinear_arith);
                }
                let end = if count - start < 9 {
                    count
                } else {
                    start + 9
                };
                (start, end)
            } else {
                (0, 0)
            }
        },
    };
    let ghost gstart = spec_candidate_page_range(*cl).0;
    let ghost gend = spec_candidate_page_range(*cl).1;
    proof {
        assert(start == gstart && end == gend);
    }
    let mut out: Vec<String> = Vec::new();
    let mut i: usize = start;
    while i < end
        invariant
            start <= i <= end || (end <= start && i == start),
            end <= cl.candidates@.len(),
            start == gstart,
            end == gend,
            out@.len() == i - start,
            forall|j: int|
                0 <= j < out@.len() ==> (#[trigger] out@[j])@ == spec_candidate_line(
                    *cl,
                    start + j,
                ),
        decreases end - i,
    {
        let mut line = String::new();
        let focused_here = match cl.focused {
            Some(f) => f == i,
            None => false,
        };
        if focused_here {
            line.push('*');
        } else {
            line.push(' ');
        }
        let num: u8 = 48u8 + (i % 9) as u8 + 1u8;
        proof {
            assert((i % 9) < 9) by (nonlinear_arith);
        }
        line.push(num as char);
        line.push('.');
        line.push(' ');
        line.append(cl.candidates[i].value.as_str());
        proof {
            assert(line@ =~= spec_candidate_line(*cl, i as int));
        }
        out.push(line);
        i = i + 1;
    }
    out
}

/// The character an underline attribute is drawn with.
pub open spec fn spec_attr_char(st: SegmentStatus) -> char {
    match st {
        SegmentStatus::Unmarked => ' ',
        SegmentStatus::Composing => '\u{2504}',
        SegmentStatus::Converted => '\u{2500}',
        SegmentStatus::Focused => '\u{2501}',
    }
}

/// The display row: the segment values concatenated.
pub open spec fn spec_segments_text(segs: Seq<Segment>) -> Seq<char>
    decreases segs.len(),
{
    if segs.len() == 0 {
        Seq::empty()
    } else {
        spec_segments_text(segs.drop_last()) + segs.last().value@
    }
}

/// The attribute row: each segment's attribute character, one column per
/// column of the segment's text.
pub open spec fn spec_segments_attrs(segs: Seq<Segment>) -> Seq<char>
    decreases segs.len(),
{
    if segs.len() == 0 {
        Seq::empty()
    } else {
        spec_segments_attrs(segs.drop_last()) + Seq::new(
            spec_display_width(segs.last().value@),
            |i: int| spec_attr_char(segs.last().status),
        )
    }
}

/// The number of characters of the display row.
pub open spec fn spec_segments_chars(segs: Seq<Segment>) -> nat
    decreases segs.len(),
{
    if segs.len() == 0 {
        0
    } else {
        spec_segments_chars(segs.drop_last()) + segs.last().value@.len()
    }
}

/// The caret column: the width of the longest segment prefix whose
/// character count equals the preedit caret, or column zero where none
/// does.
pub open spec fn spec_caret_col(segs: Seq<Segment>, caret: nat) -> nat
    decreases segs.len(),
{
    if spec_segments_chars(segs) == caret {
        spec_display_width(spec_segments_text(segs))
    } else if segs.len() == 0 {
        0
    } else {
        spec_caret_col(segs.drop_last(), caret)
    }
}

/// Renders a preedit for a terminal: the display row, the attribute row
/// underneath it, and the caret column.
pub fn render_preedit(preedit: &Preedit) -> (r: (String, String, usize))
    ensures
        r.0@ == spec_segments_text(preedit.segments@),
        r.1@ == spec_segments_attrs(preedit.segments@),
        r.2 == spec_caret_col(preedit.segments@, preedit.caret as nat),
{
    let segs = &preedit.segments;
    let mut disp = String::new();
    let mut attrs = String::new();
    let mut caret_col: usize = 0;
    if preedit.caret == 0 {
        caret_col = text_width(disp.as_str());
    }
    proof {
        assert(spec_segments_text(segs@.take(0)) =~= Seq::<char>::empty());
        assert(spec_segments_attrs(segs@.take(0)) =~= Seq::<char>::empty());
        assert(disp@ =~= Seq::<char>::empty());
    }
    let mut i: usize = 0;
    while i < segs.len()
        invariant
            i <= segs@.len(),
            segs@ == preedit.segments@,
            disp@ == spec_segments_text(segs@.take(i as int)),
            attrs@ == spec_segments_attrs(segs@.take(i as int)),
            caret_col as nat == spec_caret_col(segs@.take(i as int), preedit.caret as nat),
        decreases segs@.len() - i,
    {
        proof {
            assert(segs@.take(i + 1).drop_last() =~= segs@.take(i as int));
            assert(segs@.take(i + 1).last() == segs@[i as int]);
        }
        let seg = &segs[i];
        disp.append(seg.value.as_str());
        let w = text_width(seg.value.as_str());
        let attr = match seg.status {
            SegmentStatus::Unmarked => ' ',
            SegmentStatus::Composing => '\u{2504}',
            SegmentStatus::Converted => '\u{2500}',
            SegmentStatus::Focused => '\u{2501}',
        };
        let mut k: usize = 0;
        let ghost attrs0 = attrs@;
        while k < w
            invariant
                k <= w,
                attrs@ == attrs0 + Seq::new(k as nat, |p: int| attr),
            decreases w - k,
        {
            attrs.push(attr);
            k = k + 1;
            assert(attrs@ =~= attrs0 + Seq::new(k as nat, |p: int| attr));
        }
        proof {
            assert(attrs@ =~= spec_segments_attrs(segs@.take(i + 1))) by {
                assert(Seq::new(w as nat, |p: int| attr) =~= Seq::new(
                    spec_display_width(segs@[i as int].value@),
                    |p: int| spec_attr_char(segs@[i as int].status),
                ));
            }
        }
        let cc = disp.as_str().unicode_len();
        proof {
            lemma_segments_chars_le_text(segs@.take(i + 1));
        }
        if cc == preedit.caret {
            caret_col = text_width(disp.as_str());
        }
        i = i + 1;
    }
    proof {
        assert(segs@.take(i as int) =~= segs@);
    }
    (disp, attrs, caret_col)
}

/// The display row has exactly as many characters as the segments'
/// character counts add up to.
proof fn lemma_segments_chars_le_text(segs: Seq<Segment>)
    ensures
        spec_segments_chars(segs) == spec_segments_text(segs).len(),
    decreases segs.len(),
{
    if segs.len() == 0 {
    } else {
        lemma_segments_chars_le_text(segs.drop_last());
    }
}

} // verus!
