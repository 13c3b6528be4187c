//! A run of text in one style, and single styled graphemes.

use vstd::prelude::*;
use vstd::string::*;
use crate::style::{law_patch_with_reset, modifiers_valid, patched, plain_style, reset_style_value, Style};
use crate::unicode::{display_width_of, graphemes, graphemes_of, str_width};

verus! {

/// A string shown in a single style.
#[derive(Debug, Clone, PartialEq, Eq, Hash)]
pub struct Span {
    pub content: String,
    pub style: Style,
}

/// One grapheme cluster with the style it is shown in.
#[derive(Debug, Clone, PartialEq, Eq, Hash)]
pub struct StyledGrapheme {
    pub symbol: String,
    pub style: Style,
}

/// A styled grapheme as plain values.
pub struct GraphemeView {
    pub symbol: Seq<char>,
    pub style: Style,
}

pub open spec fn grapheme_views(gs: Seq<StyledGrapheme>) -> Seq<GraphemeView> {
    gs.map_values(|g: StyledGrapheme| GraphemeView { symbol: g.symbol@, style: g.style })
}

/// The graphemes among the first `i` of `gs` that are not a line break,
/// each in `style`.
pub open spec fn graphemes_without_breaks(gs: Seq<Seq<char>>, style: Style, i: int) -> Seq<GraphemeView>
    decreases i,
{
    if i <= 0 {
        Seq::empty()
    } else if gs[i - 1] == seq!['\n'] {
        graphemes_without_breaks(gs, style, i - 1)
    } else {
        graphemes_without_breaks(gs, style, i - 1).push(GraphemeView { symbol: gs[i - 1], style })
    }
}

/// The styled graphemes of a span's text, over a base style.
pub open spec fn span_graphemes(content: Seq<char>, span_style: Style, base: Style) -> Seq<GraphemeView> {
    graphemes_without_breaks(graphemes_of(content), patched(base, span_style), graphemes_of(content).len() as int)
}

impl StyledGrapheme {
    pub fn new(symbol: &str, style: Style) -> (r: StyledGrapheme)
        ensures
            r.symbol@ == symbol@,
            r.style == style,
    {
        StyledGrapheme { symbol: symbol.to_owned(), style }
    }
}

fn is_line_break(g: &String) -> (r: bool)
    ensures
        r == (g@ == seq!['\n']),
{
    let s = g.as_str();
    if s.unicode_len() == 1 {
        let c = s.get_char(0);
        assert(c == '\n' ==> s@ =~= seq!['\n']);
        c == '\n'
    } else {
        false
    }
}

impl Default for Span {
    fn default() -> (r: Span)
        ensures
            r.content@ == Seq::<char>::empty(),
            r.style == plain_style(),
    {
        Span { content: String::new(), style: Style::new() }
    }
}

impl Span {
    /// Text in the style that changes nothing.
    pub fn raw(content: &str) -> (r: Span)
        ensures
            r.content@ == content@,
            r.style == plain_style(),
    {
        Span { content: content.to_owned(), style: Style::new() }
    }

    /// Text in the given style.
    pub fn styled(content: &str, style: Style) -> (r: Span)
        ensures
            r.content@ == content@,
            r.style == style,
    {
        Span { content: content.to_owned(), style }
    }

    /// A copy of this span.
    pub fn duplicate(&self) -> (r: Span)
        ensures
            r == *self,
    {
        Span { content: self.content.clone(), style: self.style }
    }

    /// Sets the style.
    pub fn style(self, style: Style) -> (r: Span)
        ensures
            r.content == self.content,
            r.style == style,
    {
        Span { style, ..self }
    }

    /// The number of columns the text occupies.
    pub fn width(&self) -> (r: usize)
        ensures
            r == display_width_of(self.content@),
    {
        str_width(self.content.as_str())
    }

    /// Lays `style` over the span's style.
    pub fn patch_style(&mut self, style: Style)
        ensures
            final(self).content == old(self).content,
            final(self).style == patched(old(self).style, style),
    {
        self.style = self.style.patch(style);
    }

    /// Resets colors and removes every modifier.
    pub fn reset_style(&mut self)
        ensures
            final(self).content == old(self).content,
            final(self).style == patched(old(self).style, reset_style_value()),
            modifiers_valid(old(self).style) ==> final(self).style == reset_style_value(),
    {
        self.patch_style(Style::reset());
        proof {
            if modifiers_valid(old(self).style) {
                law_patch_with_reset(old(self).style);
            }
        }
    }

    /// The graphemes of the text, line breaks left out, each in the span's
    /// style laid over `base_style`.
    pub fn styled_graphemes(&self, base_style: Style) -> (r: Vec<StyledGrapheme>)
        ensures
            grapheme_views(r@) == span_graphemes(self.content@, self.style, base_style),
    {
        let style = base_style.patch(self.style);
        let gs = graphemes(self.content.as_str());
        let ghost gv = gs@.map_values(|g: String| g@);
        let mut r: Vec<StyledGrapheme> = Vec::new();
        let mut i: usize = 0;
        while i < gs.len()
            invariant
                0 <= i <= gs.len(),
                gv == gs@.map_values(|g: String| g@),
                gv == graphemes_of(self.content@),
                style == patched(base_style, self.style),
                grapheme_views(r@) == graphemes_without_breaks(gv, style, i as int),
            decreases gs.len() - i,
        {
            if !is_line_break(&gs[i]) {
                let ghost before = r@;
                r.push(StyledGrapheme { symbol: gs[i].clone(), style });
                assert(grapheme_views(r@) =~= grapheme_views(before).push(
                    GraphemeView { symbol: gv[i as int], style },
                ));
            }
            i = i + 1;
        }
        r
    }
}

impl From<String> for Span {
    fn from(content: String) -> (r: Span)
        ensures
            r.content == content,
            r.style == plain_style(),
    {
        Span { content, style: Style::new() }
    }
}

impl vstd::std_specs::convert::FromSpecImpl<String> for Span {
    open spec fn obeys_from_spec() -> bool {
        true
    }

    open spec fn from_spec(content: String) -> Span {
        Span { content, style: plain_style() }
    }
}

impl<'a> From<&'a str> for Span {
    fn from(content: &'a str) -> (r: Span)
        ensures
            r.content@ == content@,
            r.style == plain_style(),
    {
        Span::raw(content)
    }
}

impl<'a> vstd::std_specs::convert::FromSpecImpl<&'a str> for Span {
    open spec fn obeys_from_spec() -> bool {
        false
    }

    open spec fn from_spec(content: &'a str) -> Span {
        arbitrary()
    }
}

} // verus!
