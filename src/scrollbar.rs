//! A scrollbar widget: a track with a thumb, and optional begin and end
//! symbols, drawn along one edge of an area.

use vstd::prelude::*;
use crate::buffer::{column_of, row_of, string_written, Buffer, CellView};
use crate::geometry::{Rect, COORD_MAX};
use crate::scrollbar_state::ScrollbarState;
use crate::style::{plain_style, Style};
use crate::unicode::{display_width_of, str_width};

verus! {

/// Which edge of the area the scrollbar is drawn on.
#[derive(Debug, Clone, Copy, PartialEq, Eq, Hash, Structural)]
pub enum ScrollbarOrientation {
    /// On the right, scrolling vertically.
    VerticalRight,
    /// On the left, scrolling vertically.
    VerticalLeft,
    /// At the bottom, scrolling horizontally.
    HorizontalBottom,
    /// At the top, scrolling horizontally.
    HorizontalTop,
}

impl Default for ScrollbarOrientation {
    fn default() -> (r: ScrollbarOrientation)
        ensures
            r == ScrollbarOrientation::VerticalRight,
    {
        ScrollbarOrientation::VerticalRight
    }
}

impl ScrollbarOrientation {
    pub open spec fn vertical(self) -> bool {
        self is VerticalRight || self is VerticalLeft
    }

    /// Whether the scrollbar runs up and down.
    pub fn is_vertical(&self) -> (r: bool)
        ensures
            r == self.vertical(),
    {
        match self {
            ScrollbarOrientation::VerticalRight | ScrollbarOrientation::VerticalLeft => true,
            _ => false,
        }
    }
}

/// The symbols a scrollbar is drawn with.
#[derive(Debug, Clone, PartialEq, Eq, Hash)]
pub struct ScrollbarSet {
    pub track: String,
    pub thumb: String,
    pub begin: String,
    pub end: String,
}

/// Double-line symbols for a vertical scrollbar.
pub fn double_vertical() -> (r: ScrollbarSet)
    ensures
        r.track@ == "║"@,
        r.thumb@ == "█"@,
        r.begin@ == "▲"@,
        r.end@ == "▼"@,
{
    ScrollbarSet { track: "║".to_owned(), thumb: "█".to_owned(), begin: "▲".to_owned(), end: "▼".to_owned() }
}

/// Double-line symbols for a horizontal scrollbar.
pub fn double_horizontal() -> (r: ScrollbarSet)
    ensures
        r.track@ == "═"@,
        r.thumb@ == "█"@,
        r.begin@ == "◄"@,
        r.end@ == "►"@,
{
    ScrollbarSet { track: "═".to_owned(), thumb: "█".to_owned(), begin: "◄".to_owned(), end: "►".to_owned() }
}

/// A scrollbar: which edge it is on, and the symbol and style of each part.
#[derive(Debug, Clone, PartialEq, Eq, Hash)]
pub struct Scrollbar {
    pub orientation: ScrollbarOrientation,
    pub thumb_style: Style,
    pub thumb_symbol: String,
    pub track_style: Style,
    pub track_symbol: Option<String>,
    pub begin_symbol: Option<String>,
    pub begin_style: Style,
    pub end_symbol: Option<String>,
    pub end_style: Style,
}

pub open spec fn opt_view(s: Option<String>) -> Option<Seq<char>> {
    match s {
        Some(x) => Some(x@),
        None => None,
    }
}

/// `a/b` rounded to the nearest integer, halves upwards.
pub open spec fn round_div(a: int, b: int) -> int {
    (2 * a + b) / (2 * b)
}

/// The lengths of the track before the thumb, of the thumb and of the track
/// after it, for a track of `track` cells in a viewport of `viewport`
/// cells, content of length `content` and a position `position` (moved back
/// to the last position if past it).
pub open spec fn part_lengths_of(track: int, viewport: int, content: int, position: int) -> (int, int, int) {
    let p = if position < content - 1 {
        position
    } else {
        content - 1
    };
    let s = content + viewport - 1;
    if s <= 0 {
        (0, 0, track)
    } else {
        let start = round_div(p * track, s);
        let end = round_div((p + viewport) * track, s);
        let thumb = if end > start {
            end - start
        } else {
            0
        };
        (start, thumb, track - start - thumb)
    }
}

/// `n` copies of `x`.
pub open spec fn repeated(x: (Seq<char>, Style), n: int) -> Seq<(Seq<char>, Style)> {
    Seq::new(n as nat, |i: int| x)
}

/// The part for a symbol that may be absent.
pub open spec fn optional_part(s: Option<Seq<char>>, style: Style, n: int) -> Seq<(Seq<char>, Style)> {
    match s {
        Some(x) => repeated((x, style), n),
        None => Seq::empty(),
    }
}

pub open spec fn bar_views(v: Seq<(String, Style)>) -> Seq<(Seq<char>, Style)> {
    v.map_values(|b: (String, Style)| (b.0@, b.1))
}

/// The cells of a buffer over `buf_area` after the first `k` bar parts are
/// written at the first `k` positions of `area`, row by row; positions
/// outside the buffer are skipped.
pub open spec fn bars_written(
    cells: Seq<CellView>,
    buf_area: Rect,
    area: Rect,
    bars: Seq<(Seq<char>, Style)>,
    k: int,
) -> Seq<CellView>
    decreases k,
{
    if k <= 0 {
        cells
    } else {
        let before = bars_written(cells, buf_area, area, bars, k - 1);
        let x = column_of(area, k - 1);
        let y = row_of(area, k - 1);
        if buf_area.contains_point(x, y) {
            string_written(before, buf_area, x, y, bars[k - 1].0, bars[k - 1].1)
        } else {
            before
        }
    }
}

/// The last cell before the edge `end`, with `end` taken no further than the
/// coordinate space and the result no lower than 0.
pub open spec fn last_cell(end: int) -> u16 {
    let edge = if end <= COORD_MAX {
        end
    } else {
        COORD_MAX as int
    };
    if edge >= 1 {
        (edge - 1) as u16
    } else {
        0
    }
}

impl Scrollbar {
    /// The area the scrollbar is drawn in: one column or row along the
    /// chosen edge of `area`.
    pub open spec fn bar_area(self, area: Rect) -> Rect {
        match self.orientation {
            ScrollbarOrientation::VerticalLeft => Rect { width: 1, ..area },
            ScrollbarOrientation::VerticalRight => Rect {
                x: last_cell(area.x as int + area.width as int),
                width: 1,
                ..area
            },
            ScrollbarOrientation::HorizontalTop => Rect { height: 1, ..area },
            ScrollbarOrientation::HorizontalBottom => Rect {
                y: last_cell(area.y as int + area.height as int),
                height: 1,
                ..area
            },
        }
    }

    /// The width of an optional end symbol, capped to the coordinate range.
    pub open spec fn head_len(s: Option<String>) -> int {
        match s {
            Some(x) => if display_width_of(x@) <= COORD_MAX {
                display_width_of(x@) as int
            } else {
                COORD_MAX as int
            },
            None => 0,
        }
    }

    /// The length of the scrollbar along its axis.
    pub open spec fn viewport_len(self, area: Rect) -> int {
        if self.orientation.vertical() {
            area.height as int
        } else {
            area.width as int
        }
    }

    /// The length of the track, without the begin and end symbols.
    pub open spec fn track_len(self, area: Rect) -> int {
        let heads = Self::head_len(self.begin_symbol) + Self::head_len(self.end_symbol);
        let arrows = if heads <= COORD_MAX {
            heads
        } else {
            COORD_MAX as int
        };
        let v = self.viewport_len(area);
        if v >= arrows {
            v - arrows
        } else {
            0
        }
    }

    /// The parts of the scrollbar in order, each with its style.
    pub open spec fn bars_of(self, area: Rect, state: ScrollbarState) -> Seq<(Seq<char>, Style)> {
        let (start, thumb, end) = part_lengths_of(
            self.track_len(area),
            self.viewport_len(area),
            state.content_length as int,
            state.position as int,
        );
        optional_part(opt_view(self.begin_symbol), self.begin_style, 1) + optional_part(
            opt_view(self.track_symbol),
            self.track_style,
            start,
        ) + repeated((self.thumb_symbol@, self.thumb_style), thumb) + optional_part(
            opt_view(self.track_symbol),
            self.track_style,
            end,
        ) + optional_part(opt_view(self.end_symbol), self.end_style, 1)
    }
}

fn copy_opt(s: &Option<String>) -> (r: Option<String>)
    ensures
        r == *s,
{
    match s {
        Some(x) => Some(x.clone()),
        None => None,
    }
}

fn push_repeated(out: &mut Vec<(String, Style)>, symbol: &String, style: Style, n: usize)
    ensures
        bar_views(final(out)@) == bar_views(old(out)@) + repeated((symbol@, style), n as int),
{
    let ghost start = bar_views(out@);
    let mut i: usize = 0;
    while i < n
        invariant
            0 <= i <= n,
            bar_views(out@) == start + repeated((symbol@, style), i as int),
        decreases n - i,
    {
        let ghost before = out@;
        out.push((symbol.clone(), style));
        assert(bar_views(out@) =~= bar_views(before).push((symbol@, style)));
        assert(start + repeated((symbol@, style), i + 1) =~= (start + repeated((symbol@, style), i as int)).push(
            (symbol@, style),
        ));
        i = i + 1;
    }
}

fn push_optional(out: &mut Vec<(String, Style)>, symbol: &Option<String>, style: Style, n: usize)
    ensures
        bar_views(final(out)@) == bar_views(old(out)@) + optional_part(opt_view(*symbol), style, n as int),
{
    match symbol {
        Some(s) => push_repeated(out, s, style, n),
        None => {
            assert(bar_views(out@) + optional_part(opt_view(*symbol), style, n as int) =~= bar_views(out@));
        },
    }
}

impl Default for Scrollbar {
    fn default() -> (r: Scrollbar)
        ensures
            r.orientation == ScrollbarOrientation::VerticalRight,
            r.thumb_symbol@ == "█"@,
            opt_view(r.track_symbol) == Some("║"@),
            opt_view(r.begin_symbol) == Some("▲"@),
            opt_view(r.end_symbol) == Some("▼"@),
            r.thumb_style == plain_style(),
            r.track_style == plain_style(),
            r.begin_style == plain_style(),
            r.end_style == plain_style(),
    {
        let set = double_vertical();
        Scrollbar {
            orientation: ScrollbarOrientation::VerticalRight,
            thumb_symbol: set.thumb,
            thumb_style: Style::new(),
            track_symbol: Some(set.track),
            track_style: Style::new(),
            begin_symbol: Some(set.begin),
            begin_style: Style::new(),
            end_symbol: Some(set.end),
            end_style: Style::new(),
        }
    }
}

impl Scrollbar {
    /// A scrollbar on the given edge, with the double-line symbols that suit it.
    pub fn new(orientation: ScrollbarOrientation) -> (r: Scrollbar)
        ensures
            r.orientation == orientation,
            r.thumb_symbol@ == "█"@,
            opt_view(r.track_symbol) == Some(if orientation.vertical() { "║"@ } else { "═"@ }),
            opt_view(r.begin_symbol) == Some(if orientation.vertical() { "▲"@ } else { "◄"@ }),
            opt_view(r.end_symbol) == Some(if orientation.vertical() { "▼"@ } else { "►"@ }),
            r.thumb_style == plain_style(),
            r.track_style == plain_style(),
            r.begin_style == plain_style(),
            r.end_style == plain_style(),
    {
        Scrollbar::default().orientation(orientation)
    }

    /// Moves the scrollbar to another edge, and takes the double-line
    /// symbols that suit it (parts set to absent stay absent).
    pub fn orientation(self, orientation: ScrollbarOrientation) -> (r: Scrollbar)
        ensures
            r.orientation == orientation,
            r.thumb_symbol@ == "█"@,
            opt_view(r.track_symbol) == (if self.track_symbol is Some {
                Some(if orientation.vertical() { "║"@ } else { "═"@ })
            } else {
                None
            }),
            opt_view(r.begin_symbol) == (if self.begin_symbol is Some {
                Some(if orientation.vertical() { "▲"@ } else { "◄"@ })
            } else {
                None
            }),
            opt_view(r.end_symbol) == (if self.end_symbol is Some {
                Some(if orientation.vertical() { "▼"@ } else { "►"@ })
            } else {
                None
            }),
            r.thumb_style == self.thumb_style,
            r.track_style == self.track_style,
            r.begin_style == self.begin_style,
            r.end_style == self.end_style,
    {
        let set = if orientation.is_vertical() {
            double_vertical()
        } else {
            double_horizontal()
        };
        Scrollbar { orientation, ..self }.symbols(set)
    }

    /// Moves the scrollbar to another edge and takes the given symbols.
    pub fn orientation_and_symbol(self, orientation: ScrollbarOrientation, set: ScrollbarSet) -> (r: Scrollbar)
        ensures
            r.orientation == orientation,
            r.thumb_symbol == set.thumb,
            r.track_symbol == (if self.track_symbol is Some { Some(set.track) } else { None }),
            r.begin_symbol == (if self.begin_symbol is Some { Some(set.begin) } else { None }),
            r.end_symbol == (if self.end_symbol is Some { Some(set.end) } else { None }),
            r.thumb_style == self.thumb_style,
            r.track_style == self.track_style,
            r.begin_style == self.begin_style,
            r.end_style == self.end_style,
    {
        Scrollbar { orientation, ..self }.symbols(set)
    }

    /// Sets the thumb symbol.
    pub fn thumb_symbol(self, thumb_symbol: &str) -> (r: Scrollbar)
        ensures
            r.thumb_symbol@ == thumb_symbol@,
            r == (Scrollbar { thumb_symbol: r.thumb_symbol, ..self }),
    {
        Scrollbar { thumb_symbol: thumb_symbol.to_owned(), ..self }
    }

    /// Sets the thumb style.
    pub fn thumb_style(self, thumb_style: Style) -> (r: Scrollbar)
        ensures
            r == (Scrollbar { thumb_style, ..self }),
    {
        Scrollbar { thumb_style, ..self }
    }

    /// Sets the track symbol, or removes it.
    pub fn track_symbol(self, track_symbol: Option<&str>) -> (r: Scrollbar)
        ensures
            opt_view(r.track_symbol) == (match track_symbol {
                Some(s) => Some(s@),
                None => None,
            }),
            r == (Scrollbar { track_symbol: r.track_symbol, ..self }),
    {
        let track_symbol = match track_symbol {
            Some(s) => Some(s.to_owned()),
            None => None,
        };
        Scrollbar { track_symbol, ..self }
    }

    /// Sets the track style.
    pub fn track_style(self, track_style: Style) -> (r: Scrollbar)
        ensures
            r == (Scrollbar { track_style, ..self }),
    {
        Scrollbar { track_style, ..self }
    }

    /// Sets the begin symbol, or removes it.
    pub fn begin_symbol(self, begin_symbol: Option<&str>) -> (r: Scrollbar)
        ensures
            opt_view(r.begin_symbol) == (match begin_symbol {
                Some(s) => Some(s@),
                None => None,
            }),
            r == (Scrollbar { begin_symbol: r.begin_symbol, ..self }),
    {
        let begin_symbol = match begin_symbol {
            Some(s) => Some(s.to_owned()),
            None => None,
        };
        Scrollbar { begin_symbol, ..self }
    }

    /// Sets the begin style.
    pub fn begin_style(self, begin_style: Style) -> (r: Scrollbar)
        ensures
            r == (Scrollbar { begin_style, ..self }),
    {
        Scrollbar { begin_style, ..self }
    }

    /// Sets the end symbol, or removes it.
    pub fn end_symbol(self, end_symbol: Option<&str>) -> (r: Scrollbar)
        ensures
            opt_view(r.end_symbol) == (match end_symbol {
                Some(s) => Some(s@),
                None => None,
            }),
            r == (Scrollbar { end_symbol: r.end_symbol, ..self }),
    {
        let end_symbol = match end_symbol {
            Some(s) => Some(s.to_owned()),
            None => None,
        };
        Scrollbar { end_symbol, ..self }
    }

    /// Sets the end style.
    pub fn end_style(self, end_style: Style) -> (r: Scrollbar)
        ensures
            r == (Scrollbar { end_style, ..self }),
    {
        Scrollbar { end_style, ..self }
    }

    /// Takes the symbols of `set`; the track, begin and end symbols only
    /// where they are present, so that a part set to absent stays absent.
    pub fn symbols(self, set: ScrollbarSet) -> (r: Scrollbar)
        ensures
            r.orientation == self.orientation,
            r.thumb_symbol == set.thumb,
            r.track_symbol == (if self.track_symbol is Some { Some(set.track) } else { None }),
            r.begin_symbol == (if self.begin_symbol is Some { Some(set.begin) } else { None }),
            r.end_symbol == (if self.end_symbol is Some { Some(set.end) } else { None }),
            r.thumb_style == self.thumb_style,
            r.track_style == self.track_style,
            r.begin_style == self.begin_style,
            r.end_style == self.end_style,
    {
        let track_symbol = if self.track_symbol.is_some() {
            Some(set.track)
        } else {
            None
        };
        let begin_symbol = if self.begin_symbol.is_some() {
            Some(set.begin)
        } else {
            None
        };
        let end_symbol = if self.end_symbol.is_some() {
            Some(set.end)
        } else {
            None
        };
        Scrollbar { thumb_symbol: set.thumb, track_symbol, begin_symbol, end_symbol, ..self }
    }

    /// Gives every part the same style.
    pub fn style(self, style: Style) -> (r: Scrollbar)
        ensures
            r == (Scrollbar {
                thumb_style: style,
                track_style: style,
                begin_style: style,
                end_style: style,
                ..self
            }),
    {
        Scrollbar { thumb_style: style, track_style: style, begin_style: style, end_style: style, ..self }
    }
}

} // verus!

verus! {

fn head_len_exec(s: &Option<String>) -> (r: u16)
    ensures
        r == Scrollbar::head_len(*s),
{
    match s {
        Some(x) => {
            let w = str_width(x.as_str());
            if w <= COORD_MAX as usize {
                w as u16
            } else {
                COORD_MAX
            }
        },
        None => 0,
    }
}

impl Scrollbar {
    /// The area the scrollbar is drawn in.
    pub fn scollbar_area(&self, area: Rect) -> (r: Rect)
        ensures
            r == self.bar_area(area),
    {
        match self.orientation {
            ScrollbarOrientation::VerticalLeft => Rect { width: 1, ..area },
            ScrollbarOrientation::VerticalRight => Rect {
                x: area.x.saturating_add(area.width).saturating_sub(1),
                width: 1,
                ..area
            },
            ScrollbarOrientation::HorizontalTop => Rect { height: 1, ..area },
            ScrollbarOrientation::HorizontalBottom => Rect {
                y: area.y.saturating_add(area.height).saturating_sub(1),
                height: 1,
                ..area
            },
        }
    }

    /// The length of the track, without the begin and end symbols.
    pub fn track_length_excluding_arrow_heads(&self, area: Rect) -> (r: u16)
        ensures
            r == self.track_len(area),
    {
        let start_len = head_len_exec(&self.begin_symbol);
        let end_len = head_len_exec(&self.end_symbol);
        let arrows_len = start_len.saturating_add(end_len);
        if self.orientation.is_vertical() {
            area.height.saturating_sub(arrows_len)
        } else {
            area.width.saturating_sub(arrows_len)
        }
    }

    /// The length of the scrollbar along its axis.
    pub fn viewport_length(&self, area: Rect) -> (r: u16)
        ensures
            r == self.viewport_len(area),
    {
        if self.orientation.is_vertical() {
            area.height
        } else {
            area.width
        }
    }

    /// The lengths of the track before the thumb, of the thumb, and of the
    /// track after it. A position past the content counts as the last one.
    pub fn part_lengths(&self, area: Rect, state: &ScrollbarState) -> (r: (usize, usize, usize))
        requires
            state.content_length > 0,
        ensures
            (r.0 as int, r.1 as int, r.2 as int) == part_lengths_of(
                self.track_len(area),
                self.viewport_len(area),
                state.content_length as int,
                state.position as int,
            ),
    {
        let t = self.track_length_excluding_arrow_heads(area) as u128;
        let v = self.viewport_length(area) as u128;
        let c = state.content_length as u128;
        let p: u128 = if (state.position as u128) < c - 1 {
            state.position as u128
        } else {
            c - 1
        };
        assert(t <= v);
        let s = c + v - 1;
        if s == 0 {
            return (0, 0, t as usize);
        }
        assert(p * t <= s * t) by (nonlinear_arith)
            requires
                p <= s,
        ;
        assert((p + v) * t <= s * t) by (nonlinear_arith)
            requires
                p + v <= s,
        ;
        assert(s * t <= 0x1_0000_0000_0001_0000 * 65535) by (nonlinear_arith)
            requires
                s <= 0x1_0000_0000_0001_0000,
                t <= 65535,
        ;
        let start = (2 * (p * t) + s) / (2 * s);
        let end = (2 * ((p + v) * t) + s) / (2 * s);
        assert(start <= t) by (nonlinear_arith)
            requires
                start == (2 * (p * t) + s) / (2 * s),
                p * t <= s * t,
                s > 0,
        ;
        assert(end <= t) by (nonlinear_arith)
            requires
                end == (2 * ((p + v) * t) + s) / (2 * s),
                (p + v) * t <= s * t,
                s > 0,
        ;
        let thumb = if end > start {
            end - start
        } else {
            0
        };
        (start as usize, thumb as usize, (t - start - thumb) as usize)
    }

    /// The parts of the scrollbar in order, each with its style: the begin
    /// symbol, the track before the thumb, the thumb, the track after it,
    /// and the end symbol; absent symbols are left out.
    pub fn bars(&self, area: Rect, state: &ScrollbarState) -> (r: Vec<(String, Style)>)
        requires
            state.content_length > 0,
        ensures
            bar_views(r@) == self.bars_of(area, *state),
    {
        let (start, thumb, end) = self.part_lengths(area, state);
        let mut out: Vec<(String, Style)> = Vec::new();
        push_optional(&mut out, &self.begin_symbol, self.begin_style, 1);
        push_optional(&mut out, &self.track_symbol, self.track_style, start);
        push_repeated(&mut out, &self.thumb_symbol, self.thumb_style, thumb);
        push_optional(&mut out, &self.track_symbol, self.track_style, end);
        push_optional(&mut out, &self.end_symbol, self.end_style, 1);
        proof {
            assert(bar_views(Seq::<(String, Style)>::empty()) =~= Seq::<(Seq<char>, Style)>::empty());
            assert(bar_views(out@) =~= self.bars_of(area, *state));
        }
        out
    }

    /// Draws the scrollbar for `state` along the chosen edge of `area`:
    /// nothing when the content is empty; otherwise each part in turn, one
    /// per cell of the edge. When there is content, the edge must lie within
    /// the buffer.
    pub fn render(&self, area: Rect, buf: &mut Buffer, state: &ScrollbarState)
        requires
            old(buf).wf(),
            state.content_length > 0 ==> old(buf).area.encloses(self.bar_area(area)),
        ensures
            final(buf).wf(),
            final(buf).area == old(buf).area,
            final(buf).cells() == if state.content_length == 0 {
                old(buf).cells()
            } else {
                let r = self.bar_area(area);
                let bars = self.bars_of(area, *state);
                let n = if bars.len() <= r.width * r.height {
                    bars.len() as int
                } else {
                    r.width * r.height
                };
                bars_written(old(buf).cells(), old(buf).area, r, bars, n)
            },
    {
        if state.content_length == 0 {
            return;
        }
        let r = self.scollbar_area(area);
        let bars = self.bars(area, state);
        let cells_in_bar = r.area() as usize;
        let n = if bars.len() <= cells_in_bar {
            bars.len()
        } else {
            cells_in_bar
        };
        let ghost bv = bar_views(bars@);
        let mut k: usize = 0;
        while k < n
            invariant
                buf.wf(),
                buf.area == old(buf).area,
                0 <= k <= n,
                n <= bars@.len(),
                n <= r.width * r.height,
                bv == bar_views(bars@),
                buf.cells() == bars_written(old(buf).cells(), old(buf).area, r, bv, k as int),
            decreases n - k,
        {
            proof {
                crate::buffer::lemma_position_of(r, k as int);
                assert(r.width > 0) by (nonlinear_arith)
                    requires
                        k < r.width * r.height,
                ;
            }
            let w = r.width as usize;
            let x = r.x as usize + k % w;
            let y = r.y as usize + k / w;
            if x <= COORD_MAX as usize && y <= COORD_MAX as usize && buf.area.contains_point_exec(
                x as u16,
                y as u16,
            ) {
                buf.set_string(x as u16, y as u16, bars[k].0.as_str(), bars[k].1);
            }
            k = k + 1;
        }
    }
}

/// Each part of the bar goes to a cell of its own, and every such cell lies
/// in the bar area, which lies within `area`.
pub proof fn law_bar_cells_distinct_and_inside(sb: Scrollbar, area: Rect, j: int, k: int)
    requires
        area.wf(),
        area.width >= 1,
        area.height >= 1,
        0 <= j < sb.bar_area(area).width * sb.bar_area(area).height,
        0 <= k < sb.bar_area(area).width * sb.bar_area(area).height,
        j != k,
    ensures
        area.encloses(sb.bar_area(area)),
        sb.bar_area(area).contains_point(column_of(sb.bar_area(area), j), row_of(sb.bar_area(area), j)),
        (column_of(sb.bar_area(area), j), row_of(sb.bar_area(area), j)) != (
            column_of(sb.bar_area(area), k),
            row_of(sb.bar_area(area), k),
        ),
{
    let bar = sb.bar_area(area);
    crate::buffer::lemma_position_of(bar, j);
    crate::buffer::lemma_position_of(bar, k);
}

} // verus!
