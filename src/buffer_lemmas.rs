//! What holds of buffer diffs, merges and wide-grapheme writes.

use vstd::prelude::*;
use crate::buffer::{
    cut_wide_head, lemma_row_neighbours, orphan_continuation, wide_repaired, apply_upto, blank_view, clear_back, clear_forward, column_of, diff_upto, fill_grapheme,
    index_in, is_continuation, lemma_index_in, lemma_position_of, merged_cells, placed,
    put_grapheme, row_of, styled_view, write_graphemes, Buffer, CellView,
};
use crate::geometry::Rect;
use crate::style::Style;
use crate::scrollbar::bars_written;
use crate::unicode::{display_width_of, graphemes_of};

verus! {

proof fn lemma_apply_prefix(
    cells: Seq<CellView>,
    area: crate::geometry::Rect,
    s1: Seq<(int, int, CellView)>,
    s2: Seq<(int, int, CellView)>,
    m: int,
)
    requires
        0 <= m <= s1.len(),
        m <= s2.len(),
        forall|j: int| 0 <= j < m ==> s1[j] == s2[j],
    ensures
        apply_upto(cells, area, s1, m) == apply_upto(cells, area, s2, m),
    decreases m,
{
    if m > 0 {
        lemma_apply_prefix(cells, area, s1, s2, m - 1);
    }
}

/// `a` with its first `i` cells taken from `b`.
spec fn mix(a: Seq<CellView>, b: Seq<CellView>, i: int) -> Seq<CellView> {
    Seq::new(a.len(), |k: int| if k < i { b[k] } else { a[k] })
}

proof fn lemma_diff_mix(a: Seq<CellView>, b: Seq<CellView>, area: crate::geometry::Rect, i: int)
    requires
        a.len() == b.len(),
        a.len() == area.width * area.height,
        0 <= i <= a.len(),
    ensures
        apply_upto(a, area, diff_upto(a, b, area, i), diff_upto(a, b, area, i).len() as int) == mix(
            a,
            b,
            i,
        ),
    decreases i,
{
    if i == 0 {
        assert(mix(a, b, 0) =~= a);
    } else {
        lemma_diff_mix(a, b, area, i - 1);
        let d0 = diff_upto(a, b, area, i - 1);
        let d1 = diff_upto(a, b, area, i);
        if a[i - 1] != b[i - 1] {
            lemma_apply_prefix(a, area, d1, d0, d0.len() as int);
            lemma_position_of(area, i - 1);
            assert(mix(a, b, i - 1).update(i - 1, b[i - 1]) =~= mix(a, b, i));
        } else {
            assert(mix(a, b, i - 1) =~= mix(a, b, i));
        }
    }
}

/// Diff round trip: writing the diff from `a` to `b` over `a` gives `b`.
pub proof fn law_diff_round_trip(a: Buffer, b: Buffer)
    requires
        a.wf(),
        b.wf(),
        a.area == b.area,
    ensures
        ({
            let d = diff_upto(a.cells(), b.cells(), b.area, b.cells().len() as int);
            apply_upto(a.cells(), a.area, d, d.len() as int) == b.cells()
        }),
{
    lemma_diff_mix(a.cells(), b.cells(), a.area, a.cells().len() as int);
    assert(mix(a.cells(), b.cells(), a.cells().len() as int) =~= b.cells());
}

proof fn lemma_diff_same(a: Seq<CellView>, area: crate::geometry::Rect, i: int)
    ensures
        diff_upto(a, a, area, i).len() == 0,
    decreases i,
{
    if i > 0 {
        lemma_diff_same(a, area, i - 1);
    }
}

/// A buffer has no difference from itself.
pub proof fn law_diff_of_same_is_empty(a: Buffer)
    ensures
        diff_upto(a.cells(), a.cells(), a.area, a.cells().len() as int).len() == 0,
{
    lemma_diff_same(a.cells(), a.area, a.cells().len() as int);
}

/// Repairing only ever blanks cells.
proof fn lemma_repair_blanks_only(cells: Seq<CellView>, area: Rect, k: int)
    requires
        0 <= k <= cells.len(),
    ensures
        wide_repaired(cells, area, k).len() == cells.len(),
        forall|j: int|
            0 <= j < cells.len() ==> #[trigger] wide_repaired(cells, area, k)[j] == cells[j]
                || wide_repaired(cells, area, k)[j] == blank_view(),
        forall|j: int| k <= j < cells.len() ==> #[trigger] wide_repaired(cells, area, k)[j] == cells[j],
    decreases k,
{
    if k > 0 {
        lemma_repair_blanks_only(cells, area, k - 1);
    }
}

/// Once a cell is passed, the repair leaves it as it is.
proof fn lemma_repair_settled(cells: Seq<CellView>, area: Rect, j: int, k: int)
    requires
        0 <= j < k <= cells.len(),
    ensures
        wide_repaired(cells, area, k)[j] == wide_repaired(cells, area, j + 1)[j],
    decreases k,
{
    lemma_repair_blanks_only(cells, area, k);
    if k > j + 1 {
        lemma_repair_settled(cells, area, j, k - 1);
        lemma_repair_blanks_only(cells, area, k - 1);
    }
}

/// After the repair no continuation cell is left without its wide
/// grapheme, and every wide grapheme still has its right-hand part (or the
/// cell was blanked).
pub proof fn law_repair_leaves_no_partial_wide(cells: Seq<CellView>, area: Rect)
    requires
        cells.len() == area.width * area.height,
    ensures
        ({
            let r = wide_repaired(cells, area, cells.len() as int);
            forall|j: int|
                0 <= j < cells.len() ==> !orphan_continuation(r, area, j) && (!cut_wide_head(r, area, j)
                    || r[j] == blank_view())
        }),
{
    let n = cells.len() as int;
    let r = wide_repaired(cells, area, n);
    lemma_repair_blanks_only(cells, area, n);
    assert forall|j: int| 0 <= j < n implies !orphan_continuation(r, area, j) && (!cut_wide_head(
        r,
        area,
        j,
    ) || r[j] == blank_view()) by {
        let p = wide_repaired(cells, area, j);
        lemma_repair_blanks_only(cells, area, j);
        lemma_repair_settled(cells, area, j, n);
        lemma_position_of(area, j);
        lemma_row_neighbours(area, j);
        if column_of(area, j) > area.x {
            lemma_repair_settled(cells, area, j - 1, n);
            lemma_repair_settled(cells, area, j - 1, j);
        }
        if column_of(area, j) < area.x + area.width - 1 {
            lemma_repair_settled(cells, area, j + 1, n);
            let q = wide_repaired(cells, area, j + 1);
            lemma_repair_blanks_only(cells, area, j + 1);
            assert(q[j + 1] == p[j + 1]);
            if !orphan_continuation(p, area, j) && !cut_wide_head(p, area, j) && !is_continuation(p[j])
                && display_width_of(p[j].symbol) >= 2 {
                // the cell after a kept wide grapheme is a continuation that stays
                assert(is_continuation(q[j + 1]));
                lemma_row_neighbours(area, j + 1);
                lemma_position_of(area, j + 1);
                assert(column_of(area, j + 1) == column_of(area, j) + 1) by {
                    lemma_column_step(area, j);
                }
                assert(!orphan_continuation(q, area, j + 1));
                assert(!cut_wide_head(q, area, j + 1));
            }
        }
    }
}

proof fn lemma_column_step(area: Rect, j: int)
    requires
        0 <= j < area.width * area.height,
        column_of(area, j) < area.x + area.width - 1,
    ensures
        column_of(area, j + 1) == column_of(area, j) + 1,
{
    let w = area.width as int;
    lemma_position_of(area, j);
    vstd::arithmetic::div_mod::lemma_fundamental_div_mod(j, w);
    vstd::arithmetic::div_mod::lemma_fundamental_div_mod_converse(j + 1, w, j / w, j % w + 1);
}

/// Merge clipping: laying `other` over `dst` at `(ox, oy)` keeps the number
/// of cells of `dst`, and every cell of `dst` outside where `other` lands
/// keeps its value, unless it was part of a wide grapheme that the overlay
/// cut, which is blanked.
pub proof fn law_merge_only_inside(dst: Buffer, other: Buffer, ox: u16, oy: u16)
    requires
        dst.wf(),
        other.wf(),
    ensures
        ({
            let m = wide_repaired(
                merged_cells(dst.cells(), dst.area, other.cells(), other.area, ox, oy),
                dst.area,
                dst.cells().len() as int,
            );
            &&& m.len() == dst.cells().len()
            &&& forall|k: int|
                0 <= k < m.len() && !placed(other.area, ox, oy).contains_point(
                    column_of(dst.area, k),
                    row_of(dst.area, k),
                ) ==> #[trigger] m[k] == dst.cells()[k] || m[k] == blank_view()
        }),
{
    let mc = merged_cells(dst.cells(), dst.area, other.cells(), other.area, ox, oy);
    lemma_repair_blanks_only(mc, dst.area, dst.cells().len() as int);
}

proof fn lemma_clear_back_frame(cells: Seq<CellView>, rb: int, k: int)
    requires
        0 <= rb,
        0 <= k,
        rb + k <= cells.len(),
    ensures
        clear_back(cells, rb, k).len() == cells.len(),
        forall|j: int| rb + k <= j < cells.len() ==> #[trigger] clear_back(cells, rb, k)[j] == cells[j],
    decreases k,
{
    if k > 0 {
        lemma_clear_back_frame(cells.update(rb + k - 1, blank_view()), rb, k - 1);
    }
}

proof fn lemma_clear_forward_frame(cells: Seq<CellView>, rb: int, width: int, k: int)
    requires
        0 <= rb,
        0 <= k,
        rb + width <= cells.len(),
    ensures
        clear_forward(cells, rb, width, k).len() == cells.len(),
        forall|j: int| 0 <= j < rb + k ==> #[trigger] clear_forward(cells, rb, width, k)[j] == cells[j],
        k < width ==> !is_continuation(clear_forward(cells, rb, width, k)[rb + k]),
    decreases width - k,
{
    if k < width && is_continuation(cells[rb + k]) {
        lemma_clear_forward_frame(cells.update(rb + k, blank_view()), rb, width, k + 1);
    }
}

proof fn lemma_fill_frame(
    cells: Seq<CellView>,
    rb: int,
    c: int,
    g: Seq<char>,
    gw: int,
    style: Style,
    j: int,
)
    requires
        0 <= rb,
        0 <= c,
        0 <= j,
        rb + c + gw <= cells.len(),
    ensures
        fill_grapheme(cells, rb, c, g, gw, style, j).len() == cells.len(),
        forall|i: int|
            0 <= i < cells.len() && !(rb + c + j <= i < rb + c + gw) ==> #[trigger] fill_grapheme(
                cells,
                rb,
                c,
                g,
                gw,
                style,
                j,
            )[i] == cells[i],
        j == 0 && gw >= 1 ==> fill_grapheme(cells, rb, c, g, gw, style, j)[rb + c] == styled_view(
            cells[rb + c],
            g,
            style,
        ),
        forall|t: int|
            1 <= t < gw && j <= t ==> is_continuation(
                #[trigger] fill_grapheme(cells, rb, c, g, gw, style, j)[rb + c + t],
            ),
    decreases gw - j,
{
    if j < gw {
        let sym = if j == 0 {
            g
        } else {
            Seq::<char>::empty()
        };
        let next = cells.update(rb + c + j, styled_view(cells[rb + c + j], sym, style));
        lemma_fill_frame(next, rb, c, g, gw, style, j + 1);
    }
}

/// Wide-grapheme integrity: writing a grapheme two columns wide at column
/// `x` of row `y`, then a one-column grapheme at `x + 1`, leaves a blank at
/// `x` (the wide grapheme is gone as a whole), the new grapheme at `x + 1`,
/// and no continuation cell right after it.
pub proof fn law_wide_then_narrow(
    b: Buffer,
    x: u16,
    y: u16,
    wide: Seq<char>,
    s1: Style,
    narrow: Seq<char>,
    s2: Style,
)
    requires
        b.wf(),
        b.area.contains_point(x as int, y as int),
        x + 2 <= b.area.x + b.area.width,
        wide.len() > 0,
        narrow.len() > 0,
    ensures
        ({
            let rb = index_in(b.area, b.area.x as int, y as int);
            let w = b.area.width as int;
            let c = x - b.area.x;
            let first = write_graphemes(b.cells(), rb, w, c, seq![wide], seq![2int], s1, 0);
            let second = write_graphemes(first, rb, w, c + 1, seq![narrow], seq![1int], s2, 0);
            &&& second.len() == b.cells().len()
            &&& second[rb + c] == blank_view()
            &&& second[rb + c + 1] == styled_view(first[rb + c + 1], narrow, s2)
            &&& !is_continuation(second[rb + c + 1])
            &&& c + 2 < w ==> !is_continuation(second[rb + c + 2])
        }),
{
    let cells = b.cells();
    let rb = index_in(b.area, b.area.x as int, y as int);
    let w = b.area.width as int;
    let c = x - b.area.x;
    lemma_index_in(b.area, b.area.x as int, y as int);
    assert(rb + w <= cells.len());
    // the wide grapheme
    let a1 = if c > 0 && is_continuation(cells[rb + c]) {
        clear_back(cells, rb, c)
    } else {
        cells
    };
    if c > 0 && is_continuation(cells[rb + c]) {
        lemma_clear_back_frame(cells, rb, c);
    }
    let f1 = fill_grapheme(a1, rb, c, wide, 2, s1, 0);
    lemma_fill_frame(a1, rb, c, wide, 2, s1, 0);
    let first = clear_forward(f1, rb, w, c + 2);
    lemma_clear_forward_frame(f1, rb, w, c + 2);
    assert(first == put_grapheme(cells, rb, w, c, wide, 2, s1));
    let gs1 = seq![wide];
    let ws1 = seq![2int];
    assert(gs1.len() == 1 && gs1[0] == wide && ws1[0] == 2);
    assert(write_graphemes(first, rb, w, c + 2, gs1, ws1, s1, 1) == first);
    assert(write_graphemes(b.cells(), rb, w, c, gs1, ws1, s1, 0) == first);
    assert(is_continuation(first[rb + c + 1]));
    assert(!is_continuation(first[rb + c]));
    // the narrow grapheme
    let a2 = clear_back(first, rb, c + 1);
    assert(a2 == first.update(rb + c, blank_view()));
    let f2 = fill_grapheme(a2, rb, c + 1, narrow, 1, s2, 0);
    lemma_fill_frame(a2, rb, c + 1, narrow, 1, s2, 0);
    let second = clear_forward(f2, rb, w, c + 2);
    lemma_clear_forward_frame(f2, rb, w, c + 2);
    if c + 2 < w {
        assert(f2[rb + c + 2] == first[rb + c + 2]);
    }
    assert(second == f2);
    assert(second == put_grapheme(first, rb, w, c + 1, narrow, 1, s2));
    let gs2 = seq![narrow];
    let ws2 = seq![1int];
    assert(gs2.len() == 1 && gs2[0] == narrow && ws2[0] == 1);
    assert(write_graphemes(second, rb, w, c + 2, gs2, ws2, s2, 1) == second);
    assert(write_graphemes(first, rb, w, c + 1, gs2, ws2, s2, 0) == second);
}

} // verus!

verus! {

proof fn lemma_clear_back_row(cells: Seq<CellView>, rb: int, k: int)
    requires
        0 <= rb,
        0 <= k,
        rb + k <= cells.len(),
    ensures
        clear_back(cells, rb, k).len() == cells.len(),
        forall|j: int|
            0 <= j < cells.len() && !(rb <= j < rb + k) ==> #[trigger] clear_back(cells, rb, k)[j]
                == cells[j],
    decreases k,
{
    if k > 0 {
        lemma_clear_back_row(cells.update(rb + k - 1, blank_view()), rb, k - 1);
    }
}

proof fn lemma_clear_forward_row(cells: Seq<CellView>, rb: int, width: int, k: int)
    requires
        0 <= rb,
        0 <= k,
        rb + width <= cells.len(),
    ensures
        clear_forward(cells, rb, width, k).len() == cells.len(),
        forall|j: int|
            0 <= j < cells.len() && !(rb + k <= j < rb + width) ==> #[trigger] clear_forward(
                cells,
                rb,
                width,
                k,
            )[j] == cells[j],
    decreases width - k,
{
    if k < width && is_continuation(cells[rb + k]) {
        lemma_clear_forward_row(cells.update(rb + k, blank_view()), rb, width, k + 1);
    }
}

/// Writing graphemes into a row changes no cell outside that row.
proof fn lemma_write_row(
    cells: Seq<CellView>,
    rb: int,
    width: int,
    col: int,
    gs: Seq<Seq<char>>,
    ws: Seq<int>,
    style: Style,
    i: int,
)
    requires
        0 <= rb,
        0 <= col,
        rb + width <= cells.len(),
        gs.len() == ws.len(),
    ensures
        write_graphemes(cells, rb, width, col, gs, ws, style, i).len() == cells.len(),
        forall|j: int|
            0 <= j < cells.len() && !(rb <= j < rb + width) ==> #[trigger] write_graphemes(
                cells,
                rb,
                width,
                col,
                gs,
                ws,
                style,
                i,
            )[j] == cells[j],
    decreases gs.len() - i,
{
    if i >= gs.len() || i < 0 {
    } else if ws[i] <= 0 {
        lemma_write_row(cells, rb, width, col, gs, ws, style, i + 1);
    } else if col + ws[i] > width {
    } else {
        let c = col;
        let a = if c > 0 && is_continuation(cells[rb + c]) {
            clear_back(cells, rb, c)
        } else {
            cells
        };
        if c > 0 && is_continuation(cells[rb + c]) {
            lemma_clear_back_row(cells, rb, c);
        }
        let f = fill_grapheme(a, rb, c, gs[i], ws[i], style, 0);
        lemma_fill_frame(a, rb, c, gs[i], ws[i], style, 0);
        let p = clear_forward(f, rb, width, c + ws[i]);
        lemma_clear_forward_row(f, rb, width, c + ws[i]);
        assert(p == put_grapheme(cells, rb, width, c, gs[i], ws[i], style));
        lemma_write_row(p, rb, width, col + ws[i], gs, ws, style, i + 1);
    }
}

/// The cells of row `y` are stored at `index_in(area, area.x, y)` and the
/// `width - 1` positions after it.
proof fn lemma_row_span(area: Rect, y: int, k: int)
    requires
        area.y <= y < area.y + area.height,
        0 <= k < area.width * area.height,
        row_of(area, k) != y,
    ensures
        !(index_in(area, area.x as int, y) <= k < index_in(area, area.x as int, y) + area.width),
{
    let w = area.width as int;
    let r = row_of(area, k) - area.y;
    let t = y - area.y;
    lemma_position_of(area, k);
    let c = column_of(area, k) - area.x;
    assert(k == r * w + c);
    assert(0 <= c < w);
    if r < t {
        assert(r * w + c < t * w) by (nonlinear_arith)
            requires
                r < t,
                0 <= c < w,
        ;
    } else {
        assert(r * w + c >= t * w + w) by (nonlinear_arith)
            requires
                r > t,
                0 <= c,
                w > 0,
        ;
    }
}

/// Rendering a scrollbar changes no cell of a row that the bar does not
/// cover: each part is written within the row of its own cell of the bar.
pub proof fn law_render_keeps_other_rows(
    cells: Seq<CellView>,
    buf_area: Rect,
    bar: Rect,
    bars: Seq<(Seq<char>, Style)>,
    n: int,
)
    requires
        cells.len() == buf_area.width * buf_area.height,
        0 <= n <= bars.len(),
        n <= bar.width * bar.height,
    ensures
        bars_written(cells, buf_area, bar, bars, n).len() == cells.len(),
        forall|k: int|
            0 <= k < cells.len() && !(bar.y <= row_of(buf_area, k) < bar.y + bar.height)
                ==> #[trigger] bars_written(cells, buf_area, bar, bars, n)[k] == cells[k],
    decreases n,
{
    if n > 0 {
        law_render_keeps_other_rows(cells, buf_area, bar, bars, n - 1);
        let before = bars_written(cells, buf_area, bar, bars, n - 1);
        let x = column_of(bar, n - 1);
        let y = row_of(bar, n - 1);
        lemma_position_of(bar, n - 1);
        if buf_area.contains_point(x, y) {
            lemma_index_in(buf_area, buf_area.x as int, y);
            let rb = index_in(buf_area, buf_area.x as int, y);
            let text = bars[n - 1].0;
            let gs = graphemes_of(text);
            let ws = gs.map_values(|g: Seq<char>| display_width_of(g) as int);
            assert(0 <= rb) by (nonlinear_arith)
                requires
                    rb == (y - buf_area.y) * buf_area.width,
                    y >= buf_area.y,
            ;
            lemma_write_row(before, rb, buf_area.width as int, x - buf_area.x, gs, ws, bars[n - 1].1, 0);
            assert forall|k: int|
                0 <= k < cells.len() && !(bar.y <= row_of(buf_area, k) < bar.y + bar.height)
                    implies #[trigger] bars_written(cells, buf_area, bar, bars, n)[k] == cells[k] by {
                lemma_row_span(buf_area, y, k);
            }
        }
    }
}

} // verus!
