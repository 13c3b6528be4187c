//! Multi-line styled text.

use vstd::prelude::*;
use vstd::std_specs::iter::IteratorSpec;
use crate::line::{law_patches_with_plain, plain_spans, spans_patched, spans_width, split_lines, Line};
use crate::span::Span;
use crate::style::{patched, plain_style, reset_style_value, Style};

verus! {

/// Lines of styled spans, with a style for the whole block.
#[derive(Debug, Clone, PartialEq, Eq, Hash)]
pub struct Text {
    pub lines: Vec<Line>,
    pub style: Style,
}

/// The lines a string becomes: an empty string still makes one empty line.
pub open spec fn text_lines_of(s: Seq<char>) -> Seq<Seq<char>> {
    if s.len() == 0 {
        seq![Seq::<char>::empty()]
    } else {
        split_lines(s)
    }
}

/// Each line is unstyled, unaligned and holds one span with the
/// corresponding text in `span_style`.
pub open spec fn one_span_lines(lines: Seq<Line>, texts: Seq<Seq<char>>, span_style: Style) -> bool {
    &&& lines.len() == texts.len()
    &&& forall|i: int|
        0 <= i < lines.len() ==> {
            &&& (#[trigger] lines[i]).spans@.len() == 1
            &&& lines[i].spans@[0].content@ == texts[i]
            &&& lines[i].spans@[0].style == span_style
            &&& lines[i].style == plain_style()
            &&& lines[i].alignment is None
        }
}

/// `after` is `before` with every span of every line patched by `style`.
pub open spec fn lines_patched(before: Seq<Line>, after: Seq<Line>, style: Style) -> bool {
    &&& after.len() == before.len()
    &&& forall|i: int|
        0 <= i < after.len() ==> spans_patched(before[i].spans@, (#[trigger] after[i]).spans@, style)
            && after[i].style == before[i].style && after[i].alignment == before[i].alignment
}

/// The width of a line as [`Line::width`] reports it.
pub open spec fn line_width(line: Line) -> int {
    let w = spans_width(line.spans@, line.spans@.len() as int);
    if w <= usize::MAX {
        w
    } else {
        usize::MAX as int
    }
}

/// The largest width among the first `i` lines, or 0.
pub open spec fn max_line_width(lines: Seq<Line>, i: int) -> int
    decreases i,
{
    if i <= 0 {
        0
    } else {
        let m = max_line_width(lines, i - 1);
        let w = line_width(lines[i - 1]);
        if w > m {
            w
        } else {
            m
        }
    }
}

/// A value that can be turned into a [`Line`].
pub trait IntoLine: Sized {
    /// `line` is what this value turns into.
    spec fn converts_to(&self, line: Line) -> bool;

    fn into_line(self) -> (r: Line)
        ensures
            self.converts_to(r),
    ;
}

impl IntoLine for Line {
    open spec fn converts_to(&self, line: Line) -> bool {
        line == *self
    }

    fn into_line(self) -> (r: Line) {
        self
    }
}

impl IntoLine for Span {
    open spec fn converts_to(&self, line: Line) -> bool {
        line.spans@ == seq![*self] && line.style == plain_style() && line.alignment is None
    }

    fn into_line(self) -> (r: Line) {
        let mut spans: Vec<Span> = Vec::new();
        spans.push(self);
        Line::from_spans(spans)
    }
}

impl IntoLine for String {
    open spec fn converts_to(&self, line: Line) -> bool {
        plain_spans(line.spans@, seq![self@]) && line.style == plain_style() && line.alignment is None
    }

    fn into_line(self) -> (r: Line) {
        Line::from_content(self.as_str())
    }
}

impl<'a> IntoLine for &'a str {
    open spec fn converts_to(&self, line: Line) -> bool {
        plain_spans(line.spans@, seq![self@]) && line.style == plain_style() && line.alignment is None
    }

    fn into_line(self) -> (r: Line) {
        Line::from_content(self)
    }
}

fn copy_line(line: &Line) -> (r: Line)
    ensures
        r.spans@ == line.spans@,
        r.style == line.style,
        r.alignment == line.alignment,
{
    let mut spans: Vec<Span> = Vec::new();
    let mut i: usize = 0;
    while i < line.spans.len()
        invariant
            0 <= i <= line.spans@.len(),
            spans@ == line.spans@.subrange(0, i as int),
        decreases line.spans@.len() - i,
    {
        spans.push(line.spans[i].duplicate());
        i = i + 1;
    }
    assert(spans@ =~= line.spans@);
    Line { spans, style: line.style, alignment: line.alignment }
}

impl Default for Text {
    fn default() -> (r: Text)
        ensures
            r.lines@.len() == 0,
            r.style == plain_style(),
    {
        Text { lines: Vec::new(), style: Style::new() }
    }
}

impl Text {
    /// Text of the given lines, unstyled.
    pub fn from_lines(lines: Vec<Line>) -> (r: Text)
        ensures
            r.lines == lines,
            r.style == plain_style(),
    {
        Text { lines, style: Style::new() }
    }

    /// Unstyled text with one line per line of `content`, each a single
    /// span; an empty string gives one empty line.
    pub fn raw(content: &str) -> (r: Text)
        ensures
            one_span_lines(r.lines@, text_lines_of(content@), plain_style()),
            r.style == plain_style(),
    {
        let mut lines: Vec<Line> = Vec::new();
        if content.is_empty() {
            let empty = "";
            proof {
                reveal_strlit("");
            }
            assert(empty@ =~= Seq::<char>::empty());
            lines.push(Line::from_content(empty));
        } else {
            let pieces = crate::line::split_lines_exec(content);
            let mut i: usize = 0;
            while i < pieces.len()
                invariant
                    0 <= i <= pieces.len(),
                    crate::line::string_views(pieces@) == split_lines(content@),
                    one_span_lines(lines@, split_lines(content@).subrange(0, i as int), plain_style()),
                decreases pieces.len() - i,
            {
                let line = Line::from_content(pieces[i].as_str());
                lines.push(line);
                i = i + 1;
            }
            assert(split_lines(content@).subrange(0, pieces@.len() as int) =~= split_lines(content@));
        }
        Text::from_lines(lines)
    }

    /// Like [`Text::raw`], with every span and the text itself in `style`.
    pub fn styled(content: &str, style: Style) -> (r: Text)
        ensures
            one_span_lines(r.lines@, text_lines_of(content@), patched(plain_style(), style)),
            r.style == style,
    {
        let mut raw = Text::raw(content);
        raw.patch_style(style);
        raw.style(style)
    }

    /// Sets the lines.
    pub fn lines(self, lines: Vec<Line>) -> (r: Text)
        ensures
            r.lines == lines,
            r.style == self.style,
    {
        Text { lines, ..self }
    }

    /// Sets the style of the whole text.
    pub fn style(self, style: Style) -> (r: Text)
        ensures
            r.lines == self.lines,
            r.style == style,
    {
        Text { style, ..self }
    }

    /// Lays `style` over every span of every line.
    pub fn patch_style(&mut self, style: Style)
        ensures
            lines_patched(old(self).lines@, final(self).lines@, style),
            style == plain_style() ==> forall|i: int|
                0 <= i < final(self).lines@.len() ==> (#[trigger] final(self).lines@[i]).spans@
                    == old(self).lines@[i].spans@,
            final(self).style == old(self).style,
    {
        let ghost before = self.lines@;
        let mut i: usize = 0;
        while i < self.lines.len()
            invariant
                0 <= i <= self.lines@.len(),
                self.lines@.len() == before.len(),
                before == old(self).lines@,
                self.style == old(self).style,
                forall|j: int|
                    0 <= j < i ==> spans_patched(before[j].spans@, (#[trigger] self.lines@[j]).spans@, style)
                        && self.lines@[j].style == before[j].style && self.lines@[j].alignment
                        == before[j].alignment,
                forall|j: int| i <= j < self.lines@.len() ==> #[trigger] self.lines@[j] == before[j],
            decreases self.lines@.len() - i,
        {
            let mut line = copy_line(&self.lines[i]);
            line.patch_style(style);
            self.lines.set(i, line);
            i = i + 1;
        }
        proof {
            if style == plain_style() {
                assert forall|i: int| 0 <= i < self.lines@.len() implies (#[trigger] self.lines@[i]).spans@
                    == before[i].spans@ by {
                    law_patches_with_plain(before[i].spans@, self.lines@[i].spans@);
                }
            }
        }
    }

    /// Resets the colors and removes every modifier of every span.
    pub fn reset_style(&mut self)
        ensures
            lines_patched(old(self).lines@, final(self).lines@, reset_style_value()),
            final(self).style == old(self).style,
    {
        self.patch_style(Style::reset());
    }

    /// The width of the widest line, or 0 without lines.
    pub fn width(&self) -> (r: usize)
        ensures
            r == max_line_width(self.lines@, self.lines@.len() as int),
    {
        let mut m: usize = 0;
        let mut i: usize = 0;
        while i < self.lines.len()
            invariant
                0 <= i <= self.lines@.len(),
                m == max_line_width(self.lines@, i as int),
            decreases self.lines@.len() - i,
        {
            let w = self.lines[i].width();
            if w > m {
                m = w;
            }
            i = i + 1;
        }
        m
    }

    /// The number of lines.
    pub fn height(&self) -> (r: usize)
        ensures
            r == self.lines@.len(),
    {
        self.lines.len()
    }

    /// The lines, each given the text's style as its own.
    pub fn styled_lines(&self) -> (r: Vec<Line>)
        ensures
            r@.len() == self.lines@.len(),
            forall|i: int|
                0 <= i < r@.len() ==> (#[trigger] r@[i]).style == self.style && r@[i].alignment
                    == self.lines@[i].alignment && r@[i].spans@ == self.lines@[i].spans@,
    {
        let mut r: Vec<Line> = Vec::new();
        let mut i: usize = 0;
        while i < self.lines.len()
            invariant
                0 <= i <= self.lines@.len(),
                r@.len() == i,
                forall|j: int|
                    0 <= j < i ==> (#[trigger] r@[j]).style == self.style && r@[j].alignment
                        == self.lines@[j].alignment && r@[j].spans@ == self.lines@[j].spans@,
            decreases self.lines@.len() - i,
        {
            let line = copy_line(&self.lines[i]).style(self.style);
            r.push(line);
            i = i + 1;
        }
        r
    }

    /// Appends a line for each item, in order.
    pub fn extend<T: IntoLine>(&mut self, items: Vec<T>)
        ensures
            final(self).style == old(self).style,
            final(self).lines@.len() == old(self).lines@.len() + items@.len(),
            forall|j: int| 0 <= j < old(self).lines@.len() ==> #[trigger] final(self).lines@[j] == old(self).lines@[j],
            forall|j: int|
                0 <= j < items@.len() ==> (#[trigger] items@[j]).converts_to(
                    final(self).lines@[old(self).lines@.len() + j],
                ),
    {
        let ghost all = items@;
        let ghost start = self.lines@.len();
        let mut rest = items;
        let n = rest.len();
        let mut k: usize = 0;
        while k < n
            invariant
                0 <= k <= n,
                n == all.len(),
                rest@ == all.subrange(k as int, n as int),
                self.style == old(self).style,
                start == old(self).lines@.len(),
                self.lines@.len() == start + k,
                forall|j: int| 0 <= j < start ==> #[trigger] self.lines@[j] == old(self).lines@[j],
                forall|j: int| 0 <= j < k ==> (#[trigger] all[j]).converts_to(self.lines@[start + j]),
            decreases n - k,
        {
            let item = rest.remove(0);
            assert(item == all[k as int]);
            self.lines.push(item.into_line());
            k = k + 1;
        }
    }

    /// The lines, by value, in order.
    pub fn into_iter(self) -> (r: std::vec::IntoIter<Line>)
        ensures
            r.remaining() == self.lines@,
    {
        proof {
            vstd::std_specs::vec::axiom_spec_into_iter(self.lines);
        }
        self.lines.into_iter()
    }
}

impl From<Vec<Line>> for Text {
    fn from(lines: Vec<Line>) -> (r: Text)
        ensures
            r.lines == lines,
            r.style == plain_style(),
    {
        Text::from_lines(lines)
    }
}

impl vstd::std_specs::convert::FromSpecImpl<Vec<Line>> for Text {
    open spec fn obeys_from_spec() -> bool {
        true
    }

    open spec fn from_spec(lines: Vec<Line>) -> Text {
        Text { lines, style: plain_style() }
    }
}

impl From<Line> for Text {
    fn from(line: Line) -> (r: Text)
        ensures
            r.lines@ == seq![line],
            r.style == plain_style(),
    {
        let mut lines: Vec<Line> = Vec::new();
        lines.push(line);
        Text::from_lines(lines)
    }
}

impl vstd::std_specs::convert::FromSpecImpl<Line> for Text {
    open spec fn obeys_from_spec() -> bool {
        false
    }

    open spec fn from_spec(line: Line) -> Text {
        arbitrary()
    }
}

impl From<Span> for Text {
    fn from(span: Span) -> (r: Text)
        ensures
            r.lines@.len() == 1,
            r.lines@[0].spans@ == seq![span],
            r.lines@[0].style == plain_style(),
            r.lines@[0].alignment is None,
            r.style == plain_style(),
    {
        Text::from(span.into_line())
    }
}

impl vstd::std_specs::convert::FromSpecImpl<Span> for Text {
    open spec fn obeys_from_spec() -> bool {
        false
    }

    open spec fn from_spec(span: Span) -> Text {
        arbitrary()
    }
}

impl From<String> for Text {
    fn from(content: String) -> (r: Text)
        ensures
            one_span_lines(r.lines@, text_lines_of(content@), plain_style()),
            r.style == plain_style(),
    {
        Text::raw(content.as_str())
    }
}

impl vstd::std_specs::convert::FromSpecImpl<String> for Text {
    open spec fn obeys_from_spec() -> bool {
        false
    }

    open spec fn from_spec(content: String) -> Text {
        arbitrary()
    }
}

impl<'a> From<&'a str> for Text {
    fn from(content: &'a str) -> (r: Text)
        ensures
            one_span_lines(r.lines@, text_lines_of(content@), plain_style()),
            r.style == plain_style(),
    {
        Text::raw(content)
    }
}

impl<'a> vstd::std_specs::convert::FromSpecImpl<&'a str> for Text {
    open spec fn obeys_from_spec() -> bool {
        false
    }

    open spec fn from_spec(content: &'a str) -> Text {
        arbitrary()
    }
}

impl<'a> From<std::borrow::Cow<'a, str>> for Text {
    fn from(content: std::borrow::Cow<'a, str>) -> (r: Text)
        ensures
            one_span_lines(r.lines@, text_lines_of(content@), plain_style()),
            r.style == plain_style(),
    {
        match content {
            std::borrow::Cow::Borrowed(s) => Text::raw(s),
            std::borrow::Cow::Owned(s) => Text::raw(s.as_str()),
        }
    }
}

impl<'a> vstd::std_specs::convert::FromSpecImpl<std::borrow::Cow<'a, str>> for Text {
    open spec fn obeys_from_spec() -> bool {
        false
    }

    open spec fn from_spec(content: std::borrow::Cow<'a, str>) -> Text {
        arbitrary()
    }
}

} // verus!
