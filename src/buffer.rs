//! A rectangular grid of styled cells, with writing, overlaying, resizing
//! and the diff between two frames.

use vstd::prelude::*;
use crate::geometry::Rect;
use crate::style::{Color, Modifier, Style};
use crate::unicode::{display_width_of, graphemes, graphemes_of, str_width};

verus! {

/// One character position of the terminal.
///
/// A cell with an empty symbol continues the wide grapheme to its left.
#[derive(Debug, Clone, PartialEq, Eq, Hash)]
pub struct Cell {
    pub symbol: String,
    pub fg: Color,
    pub bg: Color,
    pub modifier: Modifier,
}

/// What a cell shows, as plain values.
pub struct CellView {
    pub symbol: Seq<char>,
    pub fg: Color,
    pub bg: Color,
    pub modifier: u16,
}

impl View for Cell {
    type V = CellView;

    open spec fn view(&self) -> CellView {
        CellView { symbol: self.symbol@, fg: self.fg, bg: self.bg, modifier: self.modifier.bits }
    }
}

/// A space in the default colors.
pub open spec fn blank_view() -> CellView {
    CellView { symbol: seq![' '], fg: Color::Reset, bg: Color::Reset, modifier: 0 }
}

/// The right-hand part of a wide grapheme.
pub open spec fn is_continuation(c: CellView) -> bool {
    c.symbol.len() == 0
}

/// `c` showing `symbol`, with `style` laid over its colors and modifiers.
pub open spec fn styled_view(c: CellView, symbol: Seq<char>, style: Style) -> CellView {
    CellView {
        symbol,
        fg: match style.fg {
            Some(f) => f,
            None => c.fg,
        },
        bg: match style.bg {
            Some(b) => b,
            None => c.bg,
        },
        modifier: (c.modifier | style.add_modifier.bits) & !style.sub_modifier.bits,
    }
}

pub open spec fn cell_views(cells: Seq<Cell>) -> Seq<CellView> {
    cells.map_values(|c: Cell| c@)
}

fn blank_cell() -> (r: Cell)
    ensures
        r@ == blank_view(),
{
    let space = " ";
    proof {
        reveal_strlit(" ");
    }
    assert(space@ =~= seq![' ']);
    Cell { symbol: space.to_owned(), fg: Color::Reset, bg: Color::Reset, modifier: Modifier::empty() }
}

impl Cell {
    /// A cell showing `symbol` in the default colors.
    pub fn new(symbol: &str) -> (r: Cell)
        ensures
            r@ == (CellView { symbol: symbol@, fg: Color::Reset, bg: Color::Reset, modifier: 0 }),
    {
        Cell { symbol: symbol.to_owned(), fg: Color::Reset, bg: Color::Reset, modifier: Modifier::empty() }
    }

    /// A space in the default colors.
    pub fn blank() -> (r: Cell)
        ensures
            r@ == blank_view(),
    {
        blank_cell()
    }

    /// A copy of this cell.
    pub fn duplicate(&self) -> (r: Cell)
        ensures
            r@ == self@,
    {
        Cell { symbol: self.symbol.clone(), fg: self.fg, bg: self.bg, modifier: self.modifier }
    }

    /// Whether two cells show the same thing.
    pub fn same_as(&self, other: &Cell) -> (r: bool)
        ensures
            r == (self@ == other@),
    {
        self.symbol == other.symbol && self.fg == other.fg && self.bg == other.bg
            && self.modifier.bits == other.modifier.bits
    }

    /// This cell showing `symbol` with `style` laid over it.
    pub fn restyled(&self, symbol: String, style: Style) -> (r: Cell)
        ensures
            r@ == styled_view(self@, symbol@, style),
    {
        Cell {
            symbol,
            fg: match style.fg {
                Some(f) => f,
                None => self.fg,
            },
            bg: match style.bg {
                Some(b) => b,
                None => self.bg,
            },
            modifier: Modifier {
                bits: (self.modifier.bits | style.add_modifier.bits) & !style.sub_modifier.bits,
            },
        }
    }
}

proof fn lemma_views_update(cells: Seq<Cell>, i: int, c: Cell)
    requires
        0 <= i < cells.len(),
    ensures
        cell_views(cells.update(i, c)) == cell_views(cells).update(i, c@),
{
    assert(cell_views(cells.update(i, c)) =~= cell_views(cells).update(i, c@));
}

} // verus!

verus! {

/// A grid of cells covering `area`, stored row by row.
#[derive(Debug, Clone, PartialEq, Eq, Hash)]
pub struct Buffer {
    pub area: Rect,
    pub content: Vec<Cell>,
}

/// Position in the row-major store of the cell at `(x, y)` of `area`.
pub open spec fn index_in(area: Rect, x: int, y: int) -> int {
    (y - area.y) * area.width + (x - area.x)
}

/// Column of the `k`-th stored cell of `area`.
pub open spec fn column_of(area: Rect, k: int) -> int {
    area.x + k % (area.width as int)
}

/// Row of the `k`-th stored cell of `area`.
pub open spec fn row_of(area: Rect, k: int) -> int {
    area.y + k / (area.width as int)
}

pub proof fn lemma_index_in(area: Rect, x: int, y: int)
    requires
        area.contains_point(x, y),
    ensures
        0 <= index_in(area, x, y) < area.width * area.height,
        column_of(area, index_in(area, x, y)) == x,
        row_of(area, index_in(area, x, y)) == y,
        (y - area.y) * area.width + area.width <= area.width * area.height,
{
    let w = area.width as int;
    let h = area.height as int;
    let r = y - area.y;
    let c = x - area.x;
    assert(0 <= r * w) by (nonlinear_arith)
        requires
            0 <= r,
            0 <= w,
    ;
    assert(r * w + w <= w * h) by (nonlinear_arith)
        requires
            0 <= r < h,
            0 <= w,
    ;
    vstd::arithmetic::div_mod::lemma_fundamental_div_mod_converse(r * w + c, w, r, c);
}

pub proof fn lemma_position_of(area: Rect, k: int)
    requires
        0 <= k < area.width * area.height,
    ensures
        area.contains_point(column_of(area, k), row_of(area, k)),
        index_in(area, column_of(area, k), row_of(area, k)) == k,
{
    let w = area.width as int;
    let h = area.height as int;
    assert(w > 0) by (nonlinear_arith)
        requires
            0 <= k < w * h,
            h >= 0,
    ;
    vstd::arithmetic::div_mod::lemma_fundamental_div_mod(k, w);
    vstd::arithmetic::div_mod::lemma_div_pos_is_pos(k, w);
    vstd::arithmetic::div_mod::lemma_mod_pos_bound(k, w);
    assert((k / w) * w == w * (k / w)) by (nonlinear_arith);
    assert(k / w < h) by (nonlinear_arith)
        requires
            0 <= k < w * h,
            w > 0,
            k == w * (k / w) + k % w,
            0 <= k % w,
    ;
}

impl Buffer {
    /// The store holds exactly one cell per position of the area.
    pub open spec fn wf(&self) -> bool {
        self.area.wf() && self.content@.len() == self.area.width * self.area.height
    }

    pub open spec fn cells(&self) -> Seq<CellView> {
        cell_views(self.content@)
    }

    /// A buffer of blank cells covering `area`.
    pub fn empty(area: Rect) -> (r: Buffer)
        requires
            area.wf(),
        ensures
            r.wf(),
            r.area == area,
            forall|k: int| 0 <= k < r.cells().len() ==> #[trigger] r.cells()[k] == blank_view(),
    {
        let blank = blank_cell();
        Buffer::filled(area, &blank)
    }

    /// A buffer covering `area` with every cell a copy of `cell`.
    pub fn filled(area: Rect, cell: &Cell) -> (r: Buffer)
        requires
            area.wf(),
        ensures
            r.wf(),
            r.area == area,
            forall|k: int| 0 <= k < r.cells().len() ==> #[trigger] r.cells()[k] == cell@,
    {
        let n: usize = area.area() as usize;
        let mut content: Vec<Cell> = Vec::new();
        let mut i: usize = 0;
        while i < n
            invariant
                0 <= i <= n,
                content@.len() == i,
                forall|k: int| 0 <= k < i ==> (#[trigger] content@[k])@ == cell@,
            decreases n - i,
        {
            content.push(cell.duplicate());
            i = i + 1;
        }
        Buffer { area, content }
    }

    /// Position in the store of the cell at `(x, y)`.
    pub fn index_of(&self, x: u16, y: u16) -> (r: usize)
        requires
            self.area.contains_point(x as int, y as int),
        ensures
            r == index_in(self.area, x as int, y as int),
            r < self.area.width * self.area.height,
    {
        proof {
            lemma_index_in(self.area, x as int, y as int);
            vstd::arithmetic::mul::lemma_mul_upper_bound(
                self.area.width as int,
                65535,
                self.area.height as int,
                65535,
            );
        }
        (y - self.area.y) as usize * self.area.width as usize + (x - self.area.x) as usize
    }

    /// Coordinates of the `k`-th stored cell.
    pub fn pos_of(&self, k: usize) -> (r: (u16, u16))
        requires
            self.area.wf(),
            k < self.area.width * self.area.height,
        ensures
            r.0 == column_of(self.area, k as int),
            r.1 == row_of(self.area, k as int),
            self.area.contains_point(r.0 as int, r.1 as int),
    {
        proof {
            lemma_position_of(self.area, k as int);
        }
        let w = self.area.width as usize;
        ((self.area.x as usize + k % w) as u16, (self.area.y as usize + k / w) as u16)
    }

    /// The cell at `(x, y)`, which must lie in the area.
    pub fn get(&self, x: u16, y: u16) -> (r: &Cell)
        requires
            self.wf(),
            self.area.contains_point(x as int, y as int),
        ensures
            *r == self.content@[index_in(self.area, x as int, y as int)],
    {
        let i = self.index_of(x, y);
        &self.content[i]
    }

    /// The cell at `(x, y)` for writing; `(x, y)` must lie in the area.
    pub fn get_mut(&mut self, x: u16, y: u16) -> (r: &mut Cell)
        requires
            old(self).wf(),
            old(self).area.contains_point(x as int, y as int),
        ensures
            *r == old(self).content@[index_in(old(self).area, x as int, y as int)],
            final(self).area == old(self).area,
            final(self).content@ == old(self).content@.update(
                index_in(old(self).area, x as int, y as int),
                *final(r),
            ),
    {
        let i = self.index_of(x, y);
        &mut self.content[i]
    }
}

} // verus!

verus! {

/// Blanks the cell left of column `k` of the row starting at `rb`, and goes
/// on leftwards while the blanked cell was a continuation: this clears a
/// wide grapheme whose right-hand part is being overwritten.
pub open spec fn clear_back(cells: Seq<CellView>, rb: int, k: int) -> Seq<CellView>
    decreases k,
{
    if k <= 0 {
        cells
    } else {
        let cleared = cells.update(rb + k - 1, blank_view());
        if is_continuation(cells[rb + k - 1]) {
            clear_back(cleared, rb, k - 1)
        } else {
            cleared
        }
    }
}

/// Blanks the continuation cells from column `k` of the row on, up to the
/// first cell that is not one: the rest of a wide grapheme whose head was
/// overwritten.
pub open spec fn clear_forward(cells: Seq<CellView>, rb: int, width: int, k: int) -> Seq<CellView>
    decreases width - k,
{
    if k >= width || !is_continuation(cells[rb + k]) {
        cells
    } else {
        clear_forward(cells.update(rb + k, blank_view()), rb, width, k + 1)
    }
}

/// Writes the grapheme `g` at column `c` and continuation cells over the
/// other `gw - 1` columns it covers, starting from part `j`.
pub open spec fn fill_grapheme(
    cells: Seq<CellView>,
    rb: int,
    c: int,
    g: Seq<char>,
    gw: int,
    style: Style,
    j: int,
) -> Seq<CellView>
    decreases gw - j,
{
    if j >= gw {
        cells
    } else {
        let sym = if j == 0 {
            g
        } else {
            Seq::<char>::empty()
        };
        fill_grapheme(
            cells.update(rb + c + j, styled_view(cells[rb + c + j], sym, style)),
            rb,
            c,
            g,
            gw,
            style,
            j + 1,
        )
    }
}

/// Puts a grapheme of width `gw` at column `c` of the row starting at `rb`:
/// first any wide grapheme that it cuts into is cleared on both sides.
pub open spec fn put_grapheme(
    cells: Seq<CellView>,
    rb: int,
    width: int,
    c: int,
    g: Seq<char>,
    gw: int,
    style: Style,
) -> Seq<CellView> {
    let a = if c > 0 && is_continuation(cells[rb + c]) {
        clear_back(cells, rb, c)
    } else {
        cells
    };
    clear_forward(fill_grapheme(a, rb, c, g, gw, style, 0), rb, width, c + gw)
}

/// Writes graphemes `i..` with widths `ws` from column `col` on; those of
/// width zero are skipped, and writing stops at the first one that would
/// reach past the row.
pub open spec fn write_graphemes(
    cells: Seq<CellView>,
    rb: int,
    width: int,
    col: int,
    gs: Seq<Seq<char>>,
    ws: Seq<int>,
    style: Style,
    i: int,
) -> Seq<CellView>
    decreases gs.len() - i,
{
    if i >= gs.len() || i < 0 {
        cells
    } else if ws[i] <= 0 {
        write_graphemes(cells, rb, width, col, gs, ws, style, i + 1)
    } else if col + ws[i] > width {
        cells
    } else {
        write_graphemes(
            put_grapheme(cells, rb, width, col, gs[i], ws[i], style),
            rb,
            width,
            col + ws[i],
            gs,
            ws,
            style,
            i + 1,
        )
    }
}

/// A store of cells never holds more than the largest area.
pub proof fn lemma_store_len(b: Buffer)
    requires
        b.wf(),
    ensures
        b.content@.len() <= 0xfffe_0001,
{
    vstd::arithmetic::mul::lemma_mul_upper_bound(b.area.width as int, 65535, b.area.height as int, 65535);
}

impl Buffer {
    /// Puts one grapheme of width `gw` at column `c` of the row whose first
    /// cell is stored at `rb`.
    fn put_grapheme(&mut self, rb: usize, c: usize, g: &String, gw: usize, style: Style)
        requires
            old(self).wf(),
            rb + old(self).area.width <= old(self).content@.len(),
            gw >= 1,
            c + gw <= old(self).area.width,
        ensures
            final(self).wf(),
            final(self).area == old(self).area,
            final(self).cells() == put_grapheme(
                old(self).cells(),
                rb as int,
                old(self).area.width as int,
                c as int,
                g@,
                gw as int,
                style,
            ),
    {
        let ghost orig = self.cells();
        proof {
            lemma_store_len(*self);
        }
        let width = self.area.width as usize;
        let ghost after_back = if c > 0 && is_continuation(orig[rb + c]) {
            clear_back(orig, rb as int, c as int)
        } else {
            orig
        };
        if c > 0 && self.content[rb + c].symbol.as_str().is_empty() {
            let mut k: usize = c;
            let mut done = false;
            while k > 0 && !done
                invariant
                    self.wf(),
                    self.area == old(self).area,
                    width == self.area.width,
                    rb + width <= self.content@.len() <= 0xfffe_0001,
                    0 <= k <= c,
                    c < width,
                    done ==> self.cells() == after_back,
                    !done ==> clear_back(self.cells(), rb as int, k as int) == after_back,
                decreases k + if done {
                    0int
                } else {
                    1
                },
            {
                let was_cont = self.content[rb + k - 1].symbol.as_str().is_empty();
                let blank = blank_cell();
                proof {
                    lemma_views_update(self.content@, rb + k - 1, blank);
                }
                self.content.set(rb + k - 1, blank);
                if was_cont {
                    k = k - 1;
                } else {
                    done = true;
                }
            }
        }
        assert(self.cells() == after_back);
        let ghost after_fill = fill_grapheme(after_back, rb as int, c as int, g@, gw as int, style, 0);
        let mut j: usize = 0;
        while j < gw
            invariant
                self.wf(),
                self.area == old(self).area,
                width == self.area.width,
                rb + width <= self.content@.len() <= 0xfffe_0001,
                0 <= j <= gw,
                c + gw <= width,
                fill_grapheme(self.cells(), rb as int, c as int, g@, gw as int, style, j as int)
                    == after_fill,
            decreases gw - j,
        {
            let sym = if j == 0 {
                g.clone()
            } else {
                String::new()
            };
            let cell = self.content[rb + c + j].restyled(sym, style);
            proof {
                lemma_views_update(self.content@, rb + c + j, cell);
            }
            self.content.set(rb + c + j, cell);
            j = j + 1;
        }
        let ghost target = clear_forward(after_fill, rb as int, width as int, (c + gw) as int);
        let mut k: usize = c + gw;
        while k < width && self.content[rb + k].symbol.as_str().is_empty()
            invariant
                self.wf(),
                self.area == old(self).area,
                width == self.area.width,
                rb + width <= self.content@.len() <= 0xfffe_0001,
                c + gw <= k <= width,
                clear_forward(self.cells(), rb as int, width as int, k as int) == target,
            decreases width - k,
        {
            let blank = blank_cell();
            proof {
                lemma_views_update(self.content@, rb + k, blank);
            }
            self.content.set(rb + k, blank);
            k = k + 1;
        }
    }
}

} // verus!

verus! {

/// The cells of a buffer over `area` after `text` is written from `(x, y)`
/// in `style`, one grapheme cluster at a time.
pub open spec fn string_written(
    cells: Seq<CellView>,
    area: Rect,
    x: int,
    y: int,
    text: Seq<char>,
    style: Style,
) -> Seq<CellView> {
    write_graphemes(
        cells,
        index_in(area, area.x as int, y),
        area.width as int,
        x - area.x,
        graphemes_of(text),
        graphemes_of(text).map_values(|g: Seq<char>| display_width_of(g) as int),
        style,
        0,
    )
}

impl Buffer {
    /// Writes graphemes of the given display widths left to right from
    /// `(x, y)`. Graphemes of width zero are skipped; writing stops at the
    /// first grapheme that would reach past the right edge. A wide grapheme
    /// that a write cuts into is cleared on both of its sides.
    pub fn set_graphemes(
        &mut self,
        x: u16,
        y: u16,
        graphemes: &Vec<String>,
        widths: &Vec<usize>,
        style: Style,
    )
        requires
            old(self).wf(),
            old(self).area.contains_point(x as int, y as int),
            graphemes.len() == widths.len(),
        ensures
            final(self).wf(),
            final(self).area == old(self).area,
            final(self).cells() == write_graphemes(
                old(self).cells(),
                index_in(old(self).area, old(self).area.x as int, y as int),
                old(self).area.width as int,
                x - old(self).area.x,
                graphemes@.map_values(|g: String| g@),
                widths@.map_values(|w: usize| w as int),
                style,
                0,
            ),
    {
        let ghost gs = graphemes@.map_values(|g: String| g@);
        let ghost ws = widths@.map_values(|w: usize| w as int);
        proof {
            lemma_store_len(*self);
            lemma_index_in(self.area, self.area.x as int, y as int);
        }
        let rb = self.index_of(self.area.x, y);
        let width = self.area.width as usize;
        let ghost target = write_graphemes(self.cells(), rb as int, width as int, x - self.area.x, gs, ws, style, 0);
        let mut col: usize = (x - self.area.x) as usize;
        let mut i: usize = 0;
        let mut done = false;
        while i < graphemes.len() && !done
            invariant
                self.wf(),
                self.area == old(self).area,
                width == self.area.width,
                rb + width <= self.content@.len() <= 0xfffe_0001,
                graphemes.len() == widths.len(),
                gs == graphemes@.map_values(|g: String| g@),
                ws == widths@.map_values(|w: usize| w as int),
                0 <= i <= graphemes.len(),
                col <= width,
                done ==> self.cells() == target,
                !done ==> write_graphemes(self.cells(), rb as int, width as int, col as int, gs, ws, style, i as int)
                    == target,
            decreases graphemes.len() - i + if done {
                0int
            } else {
                1
            },
        {
            let w = widths[i];
            if w == 0 {
                i = i + 1;
            } else if w > width - col {
                done = true;
            } else {
                self.put_grapheme(rb, col, &graphemes[i], w, style);
                col = col + w;
                i = i + 1;
            }
        }
    }

    /// Writes `text` from `(x, y)` one grapheme cluster at a time, each
    /// taking as many columns as its display width; clusters of width zero
    /// are skipped and the text is cut at the right edge of the buffer.
    pub fn set_string(&mut self, x: u16, y: u16, text: &str, style: Style)
        requires
            old(self).wf(),
            old(self).area.contains_point(x as int, y as int),
        ensures
            final(self).wf(),
            final(self).area == old(self).area,
            final(self).cells() == string_written(old(self).cells(), old(self).area, x as int, y as int, text@, style),
    {
        let gs = graphemes(text);
        let mut ws: Vec<usize> = Vec::new();
        let mut i: usize = 0;
        while i < gs.len()
            invariant
                0 <= i <= gs.len(),
                ws@.len() == i,
                forall|j: int| 0 <= j < i ==> #[trigger] ws@[j] == display_width_of(gs@[j]@),
            decreases gs.len() - i,
        {
            ws.push(str_width(gs[i].as_str()));
            i = i + 1;
        }
        assert(ws@.map_values(|w: usize| w as int) =~= graphemes_of(text@).map_values(
            |g: Seq<char>| display_width_of(g) as int,
        ));
        self.set_graphemes(x, y, &gs, &ws, style);
    }
}

} // verus!

verus! {

/// Where a buffer of `other_area`'s size lands when placed at `(ox, oy)`.
pub open spec fn placed(other_area: Rect, ox: u16, oy: u16) -> Rect {
    Rect { x: ox, y: oy, width: other_area.width, height: other_area.height }
}

/// The cells of a buffer over `area` after `other` is laid over it at
/// `(ox, oy)`: cells under `other` take its cells, the rest stay.
pub open spec fn merged_cells(
    cells: Seq<CellView>,
    area: Rect,
    other: Seq<CellView>,
    other_area: Rect,
    ox: u16,
    oy: u16,
) -> Seq<CellView> {
    let p = placed(other_area, ox, oy);
    Seq::new(
        cells.len(),
        |k: int|
            if p.contains_point(column_of(area, k), row_of(area, k)) {
                other[index_in(p, column_of(area, k), row_of(area, k))]
            } else {
                cells[k]
            },
    )
}

/// The cells of a buffer over `area` resized to `new_area`: positions in
/// both keep their cells, new positions are blank.
pub open spec fn resized_cells(cells: Seq<CellView>, area: Rect, new_area: Rect) -> Seq<CellView> {
    Seq::new(
        (new_area.width * new_area.height) as nat,
        |k: int|
            if area.contains_point(column_of(new_area, k), row_of(new_area, k)) {
                cells[index_in(area, column_of(new_area, k), row_of(new_area, k))]
            } else {
                blank_view()
            },
    )
}

/// The positions among the first `i` whose cells differ, in store order,
/// each with the cell it now holds.
pub open spec fn diff_upto(
    prev: Seq<CellView>,
    cur: Seq<CellView>,
    area: Rect,
    i: int,
) -> Seq<(int, int, CellView)>
    decreases i,
{
    if i <= 0 {
        Seq::empty()
    } else if prev[i - 1] != cur[i - 1] {
        diff_upto(prev, cur, area, i - 1).push((column_of(area, i - 1), row_of(area, i - 1), cur[i - 1]))
    } else {
        diff_upto(prev, cur, area, i - 1)
    }
}

/// The cells after the first `i` updates are written over them in order;
/// updates outside the area are ignored.
pub open spec fn apply_upto(
    cells: Seq<CellView>,
    area: Rect,
    ups: Seq<(int, int, CellView)>,
    i: int,
) -> Seq<CellView>
    decreases i,
{
    if i <= 0 {
        cells
    } else {
        let before = apply_upto(cells, area, ups, i - 1);
        let u = ups[i - 1];
        if area.contains_point(u.0, u.1) {
            before.update(index_in(area, u.0, u.1), u.2)
        } else {
            before
        }
    }
}

pub open spec fn update_views(ups: Seq<(u16, u16, Cell)>) -> Seq<(int, int, CellView)> {
    ups.map_values(|u: (u16, u16, Cell)| (u.0 as int, u.1 as int, u.2@))
}

impl Buffer {
    /// Lays `other` over this buffer with its top-left corner at `(ox, oy)`,
    /// cell by cell; what falls outside this buffer is dropped. Wide
    /// graphemes that lost a part on the way are then blanked.
    pub fn merge(&mut self, other: &Buffer, ox: u16, oy: u16)
        requires
            old(self).wf(),
            other.wf(),
        ensures
            final(self).wf(),
            final(self).area == old(self).area,
            final(self).cells() == wide_repaired(
                merged_cells(old(self).cells(), old(self).area, other.cells(), other.area, ox, oy),
                old(self).area,
                old(self).cells().len() as int,
            ),
    {
        let ghost target = merged_cells(self.cells(), self.area, other.cells(), other.area, ox, oy);
        let ghost p = placed(other.area, ox, oy);
        let n = self.content.len();
        let ow = other.area.width as u32;
        let oh = other.area.height as u32;
        let mut k: usize = 0;
        while k < n
            invariant
                self.wf(),
                self.area == old(self).area,
                other.wf(),
                n == self.content@.len(),
                ow == other.area.width,
                oh == other.area.height,
                p == placed(other.area, ox, oy),
                target == merged_cells(old(self).cells(), old(self).area, other.cells(), other.area, ox, oy),
                old(self).cells().len() == n,
                0 <= k <= n,
                forall|j: int| 0 <= j < k ==> #[trigger] self.cells()[j] == target[j],
                forall|j: int| k <= j < n ==> #[trigger] self.cells()[j] == old(self).cells()[j],
            decreases n - k,
        {
            let ghost before = self.cells();
            let (px, py) = self.pos_of(k);
            if px >= ox && (px as u32) < ox as u32 + ow && py >= oy && (py as u32) < oy as u32 + oh {
                proof {
                    lemma_index_in(p, px as int, py as int);
                    vstd::arithmetic::mul::lemma_mul_upper_bound(
                        other.area.width as int,
                        65535,
                        other.area.height as int,
                        65535,
                    );
                }
                let idx = (py - oy) as usize * ow as usize + (px - ox) as usize;
                let cell = other.content[idx].duplicate();
                assert(cell@ == target[k as int]);
                proof {
                    lemma_views_update(self.content@, k as int, cell);
                }
                self.content.set(k, cell);
            } else {
                assert(!p.contains_point(column_of(self.area, k as int), row_of(self.area, k as int)));
                assert(target[k as int] == old(self).cells()[k as int]);
            }
            assert(self.cells()[k as int] == target[k as int]);
            assert forall|j: int| 0 <= j < n && j != k implies #[trigger] self.cells()[j] == before[j] by {}
            k = k + 1;
        }
        assert(self.cells() =~= target);
        self.repair_wide();
    }

    /// Moves the buffer to cover `area`: cells at positions in both areas
    /// are kept, the others are blank. Wide graphemes cut at the new edge
    /// are then blanked.
    pub fn resize(&mut self, area: Rect)
        requires
            old(self).wf(),
            area.wf(),
        ensures
            final(self).wf(),
            final(self).area == area,
            final(self).cells() == wide_repaired(
                resized_cells(old(self).cells(), old(self).area, area),
                area,
                area.width * area.height,
            ),
    {
        let ghost target = resized_cells(self.cells(), self.area, area);
        let fresh = Buffer::empty(area);
        let n = fresh.content.len();
        let mut content: Vec<Cell> = Vec::new();
        let mut k: usize = 0;
        while k < n
            invariant
                self.wf(),
                fresh.wf(),
                fresh.area == area,
                n == fresh.content@.len(),
                target == resized_cells(self.cells(), self.area, area),
                0 <= k <= n,
                content@.len() == k,
                forall|j: int| 0 <= j < k ==> #[trigger] cell_views(content@)[j] == target[j],
            decreases n - k,
        {
            let (px, py) = fresh.pos_of(k);
            let cell = if self.area.contains_point_exec(px, py) {
                proof {
                    lemma_index_in(self.area, px as int, py as int);
                }
                let i = self.index_of(px, py);
                self.content[i].duplicate()
            } else {
                blank_cell()
            };
            let ghost before = content@;
            content.push(cell);
            assert(cell_views(content@) =~= cell_views(before).push(cell@));
            k = k + 1;
        }
        assert(cell_views(content@) =~= target);
        self.area = area;
        self.content = content;
        self.repair_wide();
    }

    /// The positions whose cells differ from `prev`, in row-major order,
    /// each with the cell this buffer holds there.
    pub fn diff(&self, prev: &Buffer) -> (r: Vec<(u16, u16, Cell)>)
        requires
            self.wf(),
            prev.wf(),
            prev.area == self.area,
        ensures
            update_views(r@) == diff_upto(prev.cells(), self.cells(), self.area, self.cells().len() as int),
    {
        let n = self.content.len();
        let mut r: Vec<(u16, u16, Cell)> = Vec::new();
        let mut k: usize = 0;
        while k < n
            invariant
                self.wf(),
                prev.wf(),
                prev.area == self.area,
                n == self.content@.len(),
                0 <= k <= n,
                update_views(r@) == diff_upto(prev.cells(), self.cells(), self.area, k as int),
            decreases n - k,
        {
            if !self.content[k].same_as(&prev.content[k]) {
                let (px, py) = self.pos_of(k);
                let ghost before = r@;
                r.push((px, py, self.content[k].duplicate()));
                assert(update_views(r@) =~= update_views(before).push(
                    (px as int, py as int, self.cells()[k as int]),
                ));
            }
            k = k + 1;
        }
        r
    }

    /// Writes each update's cell at its position, in order; updates outside
    /// the area are ignored.
    pub fn apply_updates(&mut self, updates: &Vec<(u16, u16, Cell)>)
        requires
            old(self).wf(),
        ensures
            final(self).wf(),
            final(self).area == old(self).area,
            final(self).cells() == apply_upto(
                old(self).cells(),
                old(self).area,
                update_views(updates@),
                updates@.len() as int,
            ),
    {
        let ghost ups = update_views(updates@);
        let mut i: usize = 0;
        while i < updates.len()
            invariant
                self.wf(),
                self.area == old(self).area,
                ups == update_views(updates@),
                0 <= i <= updates.len(),
                self.cells() == apply_upto(old(self).cells(), old(self).area, ups, i as int),
            decreases updates.len() - i,
        {
            let (px, py) = (updates[i].0, updates[i].1);
            if self.area.contains_point_exec(px, py) {
                let k = self.index_of(px, py);
                let cell = updates[i].2.duplicate();
                proof {
                    lemma_views_update(self.content@, k as int, cell);
                }
                self.content.set(k, cell);
            }
            i = i + 1;
        }
    }
}

} // verus!

verus! {

/// A continuation cell with no wide grapheme to its left in the same row.
pub open spec fn orphan_continuation(cells: Seq<CellView>, area: Rect, j: int) -> bool {
    is_continuation(cells[j]) && (column_of(area, j) == area.x || (!is_continuation(cells[j - 1])
        && display_width_of(cells[j - 1].symbol) < 2))
}

/// A wide grapheme whose right-hand part is missing.
pub open spec fn cut_wide_head(cells: Seq<CellView>, area: Rect, j: int) -> bool {
    !is_continuation(cells[j]) && display_width_of(cells[j].symbol) >= 2 && (column_of(area, j)
        == area.x + area.width - 1 || !is_continuation(cells[j + 1]))
}

/// The first `k` cells, left to right, with every orphan continuation and
/// every cut wide grapheme blanked.
pub open spec fn wide_repaired(cells: Seq<CellView>, area: Rect, k: int) -> Seq<CellView>
    decreases k,
{
    if k <= 0 {
        cells
    } else {
        let before = wide_repaired(cells, area, k - 1);
        if orphan_continuation(before, area, k - 1) || cut_wide_head(before, area, k - 1) {
            before.update(k - 1, blank_view())
        } else {
            before
        }
    }
}

pub proof fn lemma_row_neighbours(area: Rect, k: int)
    requires
        0 <= k < area.width * area.height,
    ensures
        column_of(area, k) > area.x ==> k >= 1,
        column_of(area, k) < area.x + area.width - 1 ==> k + 1 < area.width * area.height,
{
    let w = area.width as int;
    let h = area.height as int;
    lemma_position_of(area, k);
    vstd::arithmetic::div_mod::lemma_fundamental_div_mod(k, w);
    assert(k >= k % w) by (nonlinear_arith)
        requires
            k == w * (k / w) + k % w,
            k / w >= 0,
            w > 0,
    ;
    assert(k / w <= h - 1);
    assert(k % w < w - 1 ==> k + 1 < w * h) by (nonlinear_arith)
        requires
            k == w * (k / w) + k % w,
            k / w <= h - 1,
            w > 0,
    ;
}

impl Buffer {
    /// Blanks what is left of wide graphemes that lost a part.
    pub fn repair_wide(&mut self)
        requires
            old(self).wf(),
        ensures
            final(self).wf(),
            final(self).area == old(self).area,
            final(self).cells() == wide_repaired(old(self).cells(), old(self).area, old(self).cells().len() as int),
    {
        let ghost orig = self.cells();
        let n = self.content.len();
        proof {
            lemma_store_len(*self);
        }
        let mut k: usize = 0;
        while k < n
            invariant
                self.wf(),
                self.area == old(self).area,
                orig == old(self).cells(),
                n == self.content@.len(),
                n <= 0xfffe_0001,
                0 <= k <= n,
                self.cells() == wide_repaired(orig, self.area, k as int),
            decreases n - k,
        {
            let (px, _py) = self.pos_of(k);
            proof {
                lemma_row_neighbours(self.area, k as int);
                lemma_position_of(self.area, k as int);
            }
            let first = px == self.area.x;
            let last = px as u32 + 1 == self.area.x as u32 + self.area.width as u32;
            let cont = self.content[k].symbol.as_str().is_empty();
            let orphan = cont && (first || {
                let left = &self.content[k - 1];
                !left.symbol.as_str().is_empty() && str_width(left.symbol.as_str()) < 2
            });
            let cut = !cont && str_width(self.content[k].symbol.as_str()) >= 2 && (last || {
                !self.content[k + 1].symbol.as_str().is_empty()
            });
            if orphan || cut {
                let blank = blank_cell();
                proof {
                    lemma_views_update(self.content@, k as int, blank);
                }
                self.content.set(k, blank);
            }
            k = k + 1;
        }
    }
}

} // verus!
