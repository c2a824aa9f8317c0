//! Prompt segments: an optional connector word, an optional icon and a body
//! made of styled spans, rendered as one piece of prompt text.
use vstd::prelude::*;

use crate::style::{paint, paint_spec, ColorMap, Style};
use crate::text::{join2, push_all};

verus! {

/// A piece of text drawn in one style.
pub struct Span {
    pub text: Vec<char>,
    pub style: Style,
}

/// The abstract value of a [`Span`].
pub ghost struct SpanModel {
    pub text: Seq<char>,
    pub style: Style,
}

impl View for Span {
    type V = SpanModel;

    open spec fn view(&self) -> SpanModel {
        SpanModel { text: self.text@, style: self.style }
    }
}

/// One prompt element, such as the directory or the git branch.
pub struct Segment {
    pub connector: Option<Span>,
    pub icon: Option<Span>,
    pub body: Vec<Span>,
}

/// The abstract value of a [`Segment`].
pub ghost struct SegmentModel {
    pub connector: Option<SpanModel>,
    pub icon: Option<SpanModel>,
    pub body: Seq<SpanModel>,
}

/// The view of an optional span.
pub open spec fn opt_span_view(s: Option<Span>) -> Option<SpanModel> {
    match s {
        Some(span) => Some(span@),
        None => None,
    }
}

impl View for Segment {
    type V = SegmentModel;

    open spec fn view(&self) -> SegmentModel {
        SegmentModel {
            connector: opt_span_view(self.connector),
            icon: opt_span_view(self.icon),
            body: self.body@.map_values(|s: Span| s@),
        }
    }
}

/// A rendered span.
pub open spec fn render_span_spec(s: SpanModel, map: ColorMap) -> Seq<char> {
    paint_spec(s.text, s.style, map)
}

/// A rendered optional span; nothing when absent.
pub open spec fn render_opt_span_spec(s: Option<SpanModel>, map: ColorMap) -> Seq<char> {
    match s {
        Some(span) => render_span_spec(span, map),
        None => Seq::empty(),
    }
}

/// The rendered body spans, one after the other.
pub open spec fn render_body_spec(body: Seq<SpanModel>, map: ColorMap) -> Seq<char>
    decreases body.len(),
{
    if body.len() == 0 {
        Seq::empty()
    } else {
        render_body_spec(body.drop_last(), map) + render_span_spec(body.last(), map)
    }
}

/// A rendered segment: connector, icon and body, the non-empty ones
/// separated by single spaces.
pub open spec fn render_segment_spec(seg: SegmentModel, map: ColorMap) -> Seq<char> {
    join2(
        join2(render_opt_span_spec(seg.connector, map), render_opt_span_spec(seg.icon, map)),
        render_body_spec(seg.body, map),
    )
}

impl Span {
    /// A span of `text` in `style`.
    pub fn new(text: Vec<char>, style: Style) -> (s: Self)
        ensures
            s@ == (SpanModel { text: text@, style }),
    {
        Span { text, style }
    }

    /// A copy of this span.
    pub fn duplicate(&self) -> (s: Self)
        ensures
            s@ == self@,
    {
        let mut text: Vec<char> = Vec::new();
        push_all(&mut text, &self.text);
        Span { text, style: self.style }
    }

    /// The rendered span (see [`render_span_spec`]).
    pub fn render(&self, map: &ColorMap) -> (r: Vec<char>)
        ensures
            r@ == render_span_spec(self@, *map),
    {
        paint(&self.text, self.style, map)
    }
}

fn render_opt_span(s: &Option<Span>, map: &ColorMap) -> (r: Vec<char>)
    ensures
        r@ == render_opt_span_spec(opt_span_view(*s), *map),
{
    match s {
        Some(span) => span.render(map),
        None => Vec::new(),
    }
}

fn duplicate_opt_span(s: &Option<Span>) -> (r: Option<Span>)
    ensures
        opt_span_view(r) == opt_span_view(*s),
{
    match s {
        Some(span) => Some(span.duplicate()),
        None => None,
    }
}

/// Joins two character vectors with a space, leaving out whichever is empty.
pub fn join_two(a: Vec<char>, b: &Vec<char>) -> (r: Vec<char>)
    ensures
        r@ == join2(a@, b@),
{
    if b.len() == 0 {
        a
    } else if a.len() == 0 {
        let mut out: Vec<char> = Vec::new();
        push_all(&mut out, b);
        out
    } else {
        let mut out = a;
        out.push(' ');
        push_all(&mut out, b);
        out
    }
}

impl Segment {
    /// A copy of this segment.
    pub fn duplicate(&self) -> (s: Self)
        ensures
            s@ == self@,
    {
        let mut body: Vec<Span> = Vec::new();
        let mut i: usize = 0;
        while i < self.body.len()
            invariant
                i <= self.body@.len(),
                body@.len() == i,
                forall|j: int| 0 <= j < i ==> #[trigger] body@[j]@ == self.body@[j]@,
            decreases self.body@.len() - i,
        {
            body.push(self.body[i].duplicate());
            i = i + 1;
        }
        proof {
            assert(body@.map_values(|s: Span| s@) =~= self.body@.map_values(|s: Span| s@));
        }
        Segment {
            connector: duplicate_opt_span(&self.connector),
            icon: duplicate_opt_span(&self.icon),
            body,
        }
    }

    /// The rendered segment (see [`render_segment_spec`]).
    pub fn render(&self, map: &ColorMap) -> (r: Vec<char>)
        ensures
            r@ == render_segment_spec(self@, *map),
    {
        let ghost views = self.body@.map_values(|s: Span| s@);
        let mut body: Vec<char> = Vec::new();
        let mut i: usize = 0;
        while i < self.body.len()
            invariant
                i <= self.body@.len(),
                views == self.body@.map_values(|s: Span| s@),
                body@ == render_body_spec(views.take(i as int), *map),
            decreases self.body@.len() - i,
        {
            let part = self.body[i].render(map);
            proof {
                assert(views.take(i + 1).drop_last() =~= views.take(i as int));
                assert(views.take(i + 1).last() == self.body@[i as int]@);
            }
            push_all(&mut body, &part);
            i = i + 1;
        }
        proof {
            assert(views.take(i as int) =~= views);
        }
        let connector = render_opt_span(&self.connector, map);
        let icon = render_opt_span(&self.icon, map);
        let head = join_two(connector, &icon);
        join_two(head, &body)
    }
}

} // verus!
