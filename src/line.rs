//! A line of styled spans, and the splitting of text into lines.

use vstd::prelude::*;
use vstd::std_specs::iter::IteratorSpec;
use vstd::string::*;
use crate::span::{grapheme_views, span_graphemes, GraphemeView, Span, StyledGrapheme};
use crate::style::{law_patch_with_plain, law_patch_with_reset, modifiers_valid, patched, plain_style, reset_style_value, Style};
use crate::unicode::display_width_of;

verus! {

/// Where a line sits horizontally in the space given to it.
#[derive(Debug, Clone, Copy, PartialEq, Eq, Hash, Structural)]
pub enum Alignment {
    Left,
    Center,
    Right,
}

/// A line without a trailing carriage return.
pub open spec fn strip_cr(line: Seq<char>) -> Seq<char> {
    if line.len() > 0 && line.last() == '\r' {
        line.drop_last()
    } else {
        line
    }
}

/// The lines of `s` from position `i` on, where the current line started at
/// `start`: lines end at `'\n'`, a `"\r\n"` ending counts as one, and a
/// final line break does not start an empty line. A last line that no
/// `'\n'` ends is kept as it is, carriage return included.
pub open spec fn lines_from(s: Seq<char>, i: int, start: int) -> Seq<Seq<char>>
    decreases s.len() - i,
{
    if i >= s.len() {
        if start < s.len() {
            seq![s.subrange(start, s.len() as int)]
        } else {
            Seq::empty()
        }
    } else if s[i] == '\n' {
        seq![strip_cr(s.subrange(start, i))] + lines_from(s, i + 1, i + 1)
    } else {
        lines_from(s, i + 1, start)
    }
}

/// The lines of `s`.
pub open spec fn split_lines(s: Seq<char>) -> Seq<Seq<char>> {
    lines_from(s, 0, 0)
}

pub open spec fn string_views(v: Seq<String>) -> Seq<Seq<char>> {
    v.map_values(|x: String| x@)
}

fn line_piece(s: &str, a: usize, b: usize) -> (r: String)
    requires
        a <= b <= s@.len(),
    ensures
        r@ == strip_cr(s@.subrange(a as int, b as int)),
{
    if b > a && s.get_char(b - 1) == '\r' {
        assert(s@.subrange(a as int, b as int).drop_last() =~= s@.subrange(a as int, b as int - 1));
        s.substring_char(a, b - 1).to_owned()
    } else {
        s.substring_char(a, b).to_owned()
    }
}

/// Splits `s` into its lines.
pub fn split_lines_exec(s: &str) -> (r: Vec<String>)
    ensures
        string_views(r@) == split_lines(s@),
{
    let n = s.unicode_len();
    let mut out: Vec<String> = Vec::new();
    let mut start: usize = 0;
    let mut i: usize = 0;
    while i < n
        invariant
            n == s@.len(),
            0 <= start <= i <= n,
            string_views(out@) + lines_from(s@, i as int, start as int) == split_lines(s@),
        decreases n - i,
    {
        if s.get_char(i) == '\n' {
            let piece = line_piece(s, start, i);
            let ghost before = out@;
            out.push(piece);
            assert(string_views(out@) =~= string_views(before).push(piece@));
            assert(string_views(before) + lines_from(s@, i as int, start as int) =~= string_views(out@)
                + lines_from(s@, i + 1, i + 1));
            start = i + 1;
        }
        i = i + 1;
    }
    if start < n {
        let piece = s.substring_char(start, n).to_owned();
        let ghost before = out@;
        out.push(piece);
        assert(string_views(out@) =~= string_views(before).push(piece@));
    }
    assert(string_views(out@) =~= split_lines(s@));
    out
}

/// A line of text: spans shown left to right.
#[derive(Debug, Clone, PartialEq, Eq, Hash)]
pub struct Line {
    pub spans: Vec<Span>,
    pub style: Style,
    pub alignment: Option<Alignment>,
}

/// The spans hold the given texts, each in the style that changes nothing.
pub open spec fn plain_spans(spans: Seq<Span>, texts: Seq<Seq<char>>) -> bool {
    &&& spans.len() == texts.len()
    &&& forall|i: int|
        0 <= i < spans.len() ==> (#[trigger] spans[i]).content@ == texts[i] && spans[i].style
            == plain_style()
}

/// Sum of the display widths of the first `i` spans.
pub open spec fn spans_width(spans: Seq<Span>, i: int) -> int
    decreases i,
{
    if i <= 0 {
        0
    } else {
        spans_width(spans, i - 1) + display_width_of(spans[i - 1].content@)
    }
}

/// The styled graphemes of the first `i` spans, one after the other.
pub open spec fn spans_graphemes(spans: Seq<Span>, base: Style, i: int) -> Seq<GraphemeView>
    decreases i,
{
    if i <= 0 {
        Seq::empty()
    } else {
        spans_graphemes(spans, base, i - 1) + span_graphemes(spans[i - 1].content@, spans[i - 1].style, base)
    }
}

/// `after` is `before` with every span's style patched by `style`.
pub open spec fn spans_patched(before: Seq<Span>, after: Seq<Span>, style: Style) -> bool {
    &&& after.len() == before.len()
    &&& forall|i: int|
        0 <= i < after.len() ==> (#[trigger] after[i]).content == before[i].content && after[i].style
            == patched(before[i].style, style)
}

/// The concatenated texts of the first `i` spans.
pub open spec fn spans_text(spans: Seq<Span>, i: int) -> Seq<char>
    decreases i,
{
    if i <= 0 {
        Seq::empty()
    } else {
        spans_text(spans, i - 1) + spans[i - 1].content@
    }
}

/// Patching spans with the style that changes nothing leaves them as they are.
pub proof fn law_patches_with_plain(before: Seq<Span>, after: Seq<Span>)
    requires
        spans_patched(before, after, plain_style()),
    ensures
        after == before,
{
    assert forall|i: int| 0 <= i < after.len() implies #[trigger] after[i] == before[i] by {
        law_patch_with_plain(before[i].style);
    }
    assert(after =~= before);
}

impl Default for Line {
    fn default() -> (r: Line)
        ensures
            r.spans@.len() == 0,
            r.style == plain_style(),
            r.alignment is None,
    {
        Line { spans: Vec::new(), style: Style::new(), alignment: None }
    }
}

impl Line {
    /// A line of the given spans, unstyled and without alignment.
    pub fn from_spans(spans: Vec<Span>) -> (r: Line)
        ensures
            r.spans == spans,
            r.style == plain_style(),
            r.alignment is None,
    {
        Line { spans, style: Style::new(), alignment: None }
    }

    /// A line of one unstyled span holding `content` as it is.
    pub fn from_content(content: &str) -> (r: Line)
        ensures
            plain_spans(r.spans@, seq![content@]),
            r.style == plain_style(),
            r.alignment is None,
    {
        let mut spans: Vec<Span> = Vec::new();
        spans.push(Span::raw(content));
        Line::from_spans(spans)
    }

    fn plain_spans_of(content: &str) -> (r: Vec<Span>)
        ensures
            plain_spans(r@, split_lines(content@)),
    {
        let pieces = split_lines_exec(content);
        let mut spans: Vec<Span> = Vec::new();
        let mut i: usize = 0;
        while i < pieces.len()
            invariant
                0 <= i <= pieces.len(),
                string_views(pieces@) == split_lines(content@),
                spans@.len() == i,
                forall|j: int|
                    0 <= j < i ==> (#[trigger] spans@[j]).content@ == pieces@[j]@ && spans@[j].style
                        == plain_style(),
            decreases pieces.len() - i,
        {
            spans.push(Span::raw(pieces[i].as_str()));
            i = i + 1;
        }
        spans
    }

    /// An unstyled line with one span per line of `content`; line breaks
    /// are dropped.
    pub fn raw(content: &str) -> (r: Line)
        ensures
            plain_spans(r.spans@, split_lines(content@)),
            r.style == plain_style(),
            r.alignment is None,
    {
        Line::from_spans(Line::plain_spans_of(content))
    }

    /// Like [`Line::raw`], with the line in `style`.
    pub fn styled(content: &str, style: Style) -> (r: Line)
        ensures
            plain_spans(r.spans@, split_lines(content@)),
            r.style == style,
            r.alignment is None,
    {
        Line { spans: Line::plain_spans_of(content), style, alignment: None }
    }

    /// Sets the spans.
    pub fn spans(self, spans: Vec<Span>) -> (r: Line)
        ensures
            r.spans == spans,
            r.style == self.style,
            r.alignment == self.alignment,
    {
        Line { spans, ..self }
    }

    /// Sets the alignment.
    pub fn alignment(self, alignment: Alignment) -> (r: Line)
        ensures
            r.spans == self.spans,
            r.style == self.style,
            r.alignment == Some(alignment),
    {
        Line { alignment: Some(alignment), ..self }
    }

    /// Sets the line's own style.
    pub fn style(self, style: Style) -> (r: Line)
        ensures
            r.spans == self.spans,
            r.style == style,
            r.alignment == self.alignment,
    {
        Line { style, ..self }
    }

    /// The number of columns the spans occupy together, or `usize::MAX` if
    /// that does not fit.
    pub fn width(&self) -> (r: usize)
        ensures
            r == if spans_width(self.spans@, self.spans@.len() as int) <= usize::MAX {
                spans_width(self.spans@, self.spans@.len() as int)
            } else {
                usize::MAX as int
            },
    {
        let mut total: usize = 0;
        let mut capped = false;
        let mut i: usize = 0;
        while i < self.spans.len()
            invariant
                0 <= i <= self.spans@.len(),
                spans_width(self.spans@, i as int) >= 0,
                !capped ==> total == spans_width(self.spans@, i as int),
                capped ==> total == usize::MAX && spans_width(self.spans@, i as int) > usize::MAX,
            decreases self.spans@.len() - i,
        {
            let w = self.spans[i].width();
            if !capped {
                if w > usize::MAX - total {
                    total = usize::MAX;
                    capped = true;
                } else {
                    total = total + w;
                }
            }
            i = i + 1;
        }
        total
    }

    /// Lays `style` over the style of every span.
    pub fn patch_style(&mut self, style: Style)
        ensures
            spans_patched(old(self).spans@, final(self).spans@, style),
            style == plain_style() ==> final(self).spans@ == old(self).spans@,
            final(self).style == old(self).style,
            final(self).alignment == old(self).alignment,
    {
        let ghost before = self.spans@;
        let mut i: usize = 0;
        while i < self.spans.len()
            invariant
                0 <= i <= self.spans@.len(),
                self.spans@.len() == before.len(),
                self.style == old(self).style,
                self.alignment == old(self).alignment,
                before == old(self).spans@,
                forall|j: int|
                    0 <= j < i ==> (#[trigger] self.spans@[j]).content == before[j].content
                        && self.spans@[j].style == patched(before[j].style, style),
                forall|j: int| i <= j < self.spans@.len() ==> #[trigger] self.spans@[j] == before[j],
            decreases self.spans@.len() - i,
        {
            let content = self.spans[i].content.clone();
            let patched_span = Span { content, style: self.spans[i].style.patch(style) };
            self.spans.set(i, patched_span);
            i = i + 1;
        }
        proof {
            if style == plain_style() {
                law_patches_with_plain(before, self.spans@);
            }
        }
    }

    /// Resets the colors and removes every modifier of every span.
    pub fn reset_style(&mut self)
        ensures
            spans_patched(old(self).spans@, final(self).spans@, reset_style_value()),
            forall|i: int|
                0 <= i < final(self).spans@.len() && modifiers_valid(old(self).spans@[i].style)
                    ==> #[trigger] final(self).spans@[i].style == reset_style_value(),
            final(self).style == old(self).style,
            final(self).alignment == old(self).alignment,
    {
        self.patch_style(Style::reset());
        proof {
            assert forall|i: int|
                0 <= i < self.spans@.len() && modifiers_valid(old(self).spans@[i].style)
                    implies #[trigger] self.spans@[i].style == reset_style_value() by {
                law_patch_with_reset(old(self).spans@[i].style);
            }
        }
    }

    /// The graphemes of all spans in order, each in its span's style laid
    /// over `base_style`.
    pub fn styled_graphemes(&self, base_style: Style) -> (r: Vec<StyledGrapheme>)
        ensures
            grapheme_views(r@) == spans_graphemes(self.spans@, base_style, self.spans@.len() as int),
    {
        let mut r: Vec<StyledGrapheme> = Vec::new();
        let mut i: usize = 0;
        while i < self.spans.len()
            invariant
                0 <= i <= self.spans@.len(),
                grapheme_views(r@) == spans_graphemes(self.spans@, base_style, i as int),
            decreases self.spans@.len() - i,
        {
            let mut part = self.spans[i].styled_graphemes(base_style);
            let ghost before = r@;
            let ghost added = part@;
            r.append(&mut part);
            assert(grapheme_views(r@) =~= grapheme_views(before) + grapheme_views(added));
            i = i + 1;
        }
        r
    }

    /// The spans, each given the line's style in place of its own.
    pub fn styled_spans(&self) -> (r: Vec<Span>)
        ensures
            r@.len() == self.spans@.len(),
            forall|i: int|
                0 <= i < r@.len() ==> (#[trigger] r@[i]).content@ == self.spans@[i].content@
                    && r@[i].style == self.style,
    {
        let mut r: Vec<Span> = Vec::new();
        let mut i: usize = 0;
        while i < self.spans.len()
            invariant
                0 <= i <= self.spans@.len(),
                r@.len() == i,
                forall|j: int|
                    0 <= j < i ==> (#[trigger] r@[j]).content@ == self.spans@[j].content@
                        && r@[j].style == self.style,
            decreases self.spans@.len() - i,
        {
            r.push(Span::styled(self.spans[i].content.as_str(), self.style));
            i = i + 1;
        }
        r
    }

    /// The texts of all spans, one after the other.
    pub fn to_plain_string(&self) -> (r: String)
        ensures
            r@ == spans_text(self.spans@, self.spans@.len() as int),
    {
        let mut r = String::new();
        let mut i: usize = 0;
        while i < self.spans.len()
            invariant
                0 <= i <= self.spans@.len(),
                r@ == spans_text(self.spans@, i as int),
            decreases self.spans@.len() - i,
        {
            r.append(self.spans[i].content.as_str());
            i = i + 1;
        }
        r
    }

    /// The spans, by value, in order.
    pub fn into_iter(self) -> (r: std::vec::IntoIter<Span>)
        ensures
            r.remaining() == self.spans@,
    {
        proof {
            vstd::std_specs::vec::axiom_spec_into_iter(self.spans);
        }
        self.spans.into_iter()
    }
}

impl From<Vec<Span>> for Line {
    fn from(spans: Vec<Span>) -> (r: Line)
        ensures
            r.spans == spans,
            r.style == plain_style(),
            r.alignment is None,
    {
        Line::from_spans(spans)
    }
}

impl vstd::std_specs::convert::FromSpecImpl<Vec<Span>> for Line {
    open spec fn obeys_from_spec() -> bool {
        true
    }

    open spec fn from_spec(spans: Vec<Span>) -> Line {
        Line { spans, style: plain_style(), alignment: None }
    }
}

impl From<Span> for Line {
    fn from(span: Span) -> (r: Line)
        ensures
            r.spans@ == seq![span],
            r.style == plain_style(),
            r.alignment is None,
    {
        let mut spans: Vec<Span> = Vec::new();
        spans.push(span);
        Line::from_spans(spans)
    }
}

impl vstd::std_specs::convert::FromSpecImpl<Span> for Line {
    open spec fn obeys_from_spec() -> bool {
        false
    }

    open spec fn from_spec(span: Span) -> Line {
        arbitrary()
    }
}

impl From<String> for Line {
    fn from(content: String) -> (r: Line)
        ensures
            plain_spans(r.spans@, seq![content@]),
            r.style == plain_style(),
            r.alignment is None,
    {
        Line::from_content(content.as_str())
    }
}

impl vstd::std_specs::convert::FromSpecImpl<String> for Line {
    open spec fn obeys_from_spec() -> bool {
        false
    }

    open spec fn from_spec(content: String) -> Line {
        arbitrary()
    }
}

impl<'a> From<&'a str> for Line {
    fn from(content: &'a str) -> (r: Line)
        ensures
            plain_spans(r.spans@, seq![content@]),
            r.style == plain_style(),
            r.alignment is None,
    {
        Line::from_content(content)
    }
}

impl<'a> vstd::std_specs::convert::FromSpecImpl<&'a str> for Line {
    open spec fn obeys_from_spec() -> bool {
        false
    }

    open spec fn from_spec(content: &'a str) -> Line {
        arbitrary()
    }
}

impl From<Line> for String {
    fn from(line: Line) -> (r: String)
        ensures
            r@ == spans_text(line.spans@, line.spans@.len() as int),
    {
        line.to_plain_string()
    }
}

impl vstd::std_specs::convert::FromSpecImpl<Line> for String {
    open spec fn obeys_from_spec() -> bool {
        false
    }

    open spec fn from_spec(line: Line) -> String {
        arbitrary()
    }
}

} // verus!
