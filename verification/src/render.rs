//! Lines of prompt text: composing segments into width-bounded lines and
//! right-aligning text at the end of a line.
use vstd::prelude::*;

use crate::segment::{render_segment_spec, Segment, SegmentModel};
use crate::style::ColorMap;
use crate::text::{
    chars_of, display_width_of, join_nonempty, join_parts, lemma_width_concat,
    lemma_width_spaces_prefix, push_all, push_spaces, spaces, string_of, truncate_chars,
    truncate_spec, width_of,
};

verus! {

/// The rendered prompt: two left-hand lines, two right-hand lines and the
/// metadata the shell integration reads (see `apply_prompt_meta`).
#[derive(Clone, Debug, PartialEq, Eq)]
pub struct PromptLines {
    pub left1: String,
    pub left2: String,
    pub right1: String,
    pub right2: String,
    pub char_meta: String,
}

/// The abstract value of [`PromptLines`].
pub ghost struct PromptLinesModel {
    pub left1: Seq<char>,
    pub left2: Seq<char>,
    pub right1: Seq<char>,
    pub right2: Seq<char>,
    pub char_meta: Seq<char>,
}

impl View for PromptLines {
    type V = PromptLinesModel;

    open spec fn view(&self) -> PromptLinesModel {
        PromptLinesModel {
            left1: self.left1@,
            left2: self.left2@,
            right1: self.right1@,
            right2: self.right2@,
            char_meta: self.char_meta@,
        }
    }
}

/// Prompt lines under construction, as character vectors.
pub struct LineTexts {
    pub left1: Vec<char>,
    pub left2: Vec<char>,
    pub right1: Vec<char>,
    pub right2: Vec<char>,
    pub char_meta: Vec<char>,
}

impl View for LineTexts {
    type V = PromptLinesModel;

    open spec fn view(&self) -> PromptLinesModel {
        PromptLinesModel {
            left1: self.left1@,
            left2: self.left2@,
            right1: self.right1@,
            right2: self.right2@,
            char_meta: self.char_meta@,
        }
    }
}

impl LineTexts {
    /// The finished prompt lines.
    pub fn into_lines(self) -> (r: PromptLines)
        ensures
            r@ == self@,
    {
        PromptLines {
            left1: string_of(&self.left1),
            left2: string_of(&self.left2),
            right1: string_of(&self.right1),
            right2: string_of(&self.right2),
            char_meta: string_of(&self.char_meta),
        }
    }
}

/// The views of a list of segments.
pub open spec fn seg_views(segs: Seq<Segment>) -> Seq<SegmentModel> {
    segs.map_values(|s: Segment| s@)
}

/// Each segment rendered.
pub open spec fn render_all(segs: Seq<SegmentModel>, map: ColorMap) -> Seq<Seq<char>> {
    segs.map_values(|s: SegmentModel| render_segment_spec(s, map))
}

/// The rendered segments joined into one line.
pub open spec fn line_text(segs: Seq<SegmentModel>, map: ColorMap) -> Seq<char> {
    join_nonempty(render_all(segs, map))
}

/// A line of segments cut to `cols` columns.
pub open spec fn compose_line_spec(segs: Seq<SegmentModel>, cols: nat, map: ColorMap) -> Seq<char> {
    truncate_spec(line_text(segs, map), cols)
}

/// `left` with `right` placed so that it ends `indent` columns before column `cols`.
/// When the two do not fit side by side (with at least one space between a
/// non-empty `left` and `right`), `left` is returned unchanged.
pub open spec fn append_right_spec(left: Seq<char>, right: Seq<char>, cols: nat, indent: nat) -> Seq<char> {
    let avail: int = if cols >= indent { cols - indent } else { 0 };
    let wl = display_width_of(left);
    let wr = display_width_of(right);
    let gap_min: nat = if left.len() > 0 { 1 } else { 0 };
    if right.len() == 0 || wl + wr + gap_min > avail {
        left
    } else {
        left + spaces((avail - wl - wr) as nat) + right
    }
}

/// Number of terminal columns the text occupies: every character counts
/// one column except those of SGR escape sequences.
pub fn display_width(s: &str) -> (w: usize)
    ensures
        w == display_width_of(s@),
{
    width_of(&chars_of(s))
}

/// Renders the segments and joins them into one line cut to `cols` columns.
pub fn compose_segment_line(segments: &Vec<Segment>, cols: usize, map: &ColorMap) -> (r: Vec<char>)
    ensures
        r@ == compose_line_spec(seg_views(segments@), cols as nat, *map),
{
    let rendered = crate::prompt::render_prompt_segments(segments, map);
    let joined = join_parts(&rendered);
    truncate_chars(&joined, cols)
}

/// Composes two left-hand lines, each cut to its own width; the other lines are empty.
pub fn compose_segments_with_widths(
    line1: &Vec<Segment>,
    line2: &Vec<Segment>,
    cols1: usize,
    cols2: usize,
    map: &ColorMap,
) -> (r: LineTexts)
    ensures
        r@ == (PromptLinesModel {
            left1: compose_line_spec(seg_views(line1@), cols1 as nat, *map),
            left2: compose_line_spec(seg_views(line2@), cols2 as nat, *map),
            right1: Seq::empty(),
            right2: Seq::empty(),
            char_meta: Seq::empty(),
        }),
{
    LineTexts {
        left1: compose_segment_line(line1, cols1, map),
        left2: compose_segment_line(line2, cols2, map),
        right1: Vec::new(),
        right2: Vec::new(),
        char_meta: Vec::new(),
    }
}

/// Places `right` at the end of `left` (see [`append_right_spec`]); when it
/// is placed, `left` ends exactly `indent` columns before column `cols`.
pub fn append_right_aligned(left: &mut Vec<char>, right: &Vec<char>, cols: usize, indent: usize)
    ensures
        final(left)@ == append_right_spec(old(left)@, right@, cols as nat, indent as nat),
        final(left)@ != old(left)@ ==> display_width_of(final(left)@) == (if cols >= indent {
            cols - indent
        } else {
            0
        }),
{
    let avail: usize = if cols >= indent { cols - indent } else { 0 };
    let wl = width_of(left);
    let wr = width_of(right);
    let gap_min: usize = if left.len() > 0 { 1 } else { 0 };
    proof {
        crate::text::lemma_width_le_len(left@);
        crate::text::lemma_width_le_len(right@);
    }
    if right.len() == 0 || wl as u128 + wr as u128 + gap_min as u128 > avail as u128 {
        return;
    }
    let ghost old_left = left@;
    let gap = avail - wl - wr;
    push_spaces(left, gap);
    push_all(left, right);
    proof {
        let tail = spaces(gap as nat) + right@;
        assert(left@ =~= old_left + tail);
        lemma_width_spaces_prefix(gap as nat, right@);
        if gap > 0 {
            assert(tail[0] == ' ');
            lemma_width_concat(old_left, tail);
        } else {
            assert(old_left.len() == 0);
            assert(old_left + tail =~= tail);
        }
        assert(right@.len() > 0);
        assert(left@.len() > old_left.len());
    }
}

} // verus!
