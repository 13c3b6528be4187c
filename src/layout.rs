//! The layout solver: splits a rectangle into one child rectangle per constraint.

use vstd::prelude::*;
use crate::constraint::{
    available, base_size, gap_for, extra, fixed_total, flex_used, grow_count, last_grow, last_prop,
    lemma_flex_used, lemma_share_floor, lemma_share_floor_after, lemma_share_floor_mono, lemma_totals, leftover, natural,
    offset, prop_count, share_floor_total, size, spare, weight_total, Constraint, Flex,
};
use crate::geometry::{Direction, Rect, COORD_MAX};

verus! {

/// Cells kept empty on each side of the container.
#[derive(Debug, Clone, Copy, PartialEq, Eq, Hash, Structural)]
pub struct Margin {
    pub horizontal: u16,
    pub vertical: u16,
}

/// Why a layout could not be solved.
#[derive(Debug, Clone, Copy, PartialEq, Eq, Hash, Structural)]
pub enum LayoutError {
    /// The container reaches past the coordinate space.
    InvalidArea,
    /// `Fixed` sizes overflow the container so far that a child would reach
    /// past the coordinate space.
    OutOfRange,
}

/// A reusable description of how to split a rectangle.
#[derive(Debug, Clone, PartialEq, Eq, Hash)]
pub struct Layout {
    pub direction: Direction,
    pub constraints: Vec<Constraint>,
    pub flex: Flex,
    pub margin: Margin,
}

/// How far a margin of `m` cells can eat into a length of `len`.
pub open spec fn margin_cut(m: u16, len: u16) -> int {
    if m <= len / 2 {
        m as int
    } else {
        len as int / 2
    }
}

/// The container with the margin taken off each side.
pub open spec fn inner_area(a: Rect, m: Margin) -> Rect {
    let h = margin_cut(m.horizontal, a.width);
    let v = margin_cut(m.vertical, a.height);
    Rect {
        x: (a.x + h) as u16,
        y: (a.y + v) as u16,
        width: (a.width - 2 * h) as u16,
        height: (a.height - 2 * v) as u16,
    }
}

pub open spec fn primary_start(d: Direction, r: Rect) -> int {
    match d {
        Direction::Horizontal => r.x as int,
        Direction::Vertical => r.y as int,
    }
}

pub open spec fn primary_len(d: Direction, r: Rect) -> int {
    match d {
        Direction::Horizontal => r.width as int,
        Direction::Vertical => r.height as int,
    }
}

/// The rectangle of the `i`-th child inside `inner`.
pub open spec fn child_rect(d: Direction, inner: Rect, cs: Seq<Constraint>, flex: Flex, i: int) -> Rect {
    let l = primary_len(d, inner);
    let p = primary_start(d, inner) + offset(cs, l, flex, i);
    let s = size(cs, l, flex, i);
    match d {
        Direction::Horizontal => Rect { x: p as u16, y: inner.y, width: s as u16, height: inner.height },
        Direction::Vertical => Rect { x: inner.x, y: p as u16, width: inner.width, height: s as u16 },
    }
}

/// Every child ends within the coordinate space.
pub open spec fn children_fit(d: Direction, inner: Rect, cs: Seq<Constraint>, flex: Flex) -> bool {
    let l = primary_len(d, inner);
    forall|i: int|
        0 <= i < cs.len() ==> primary_start(d, inner) + #[trigger] offset(cs, l, flex, i) + size(
            cs,
            l,
            flex,
            i,
        ) <= COORD_MAX
}

/// A child of no length at the start of `inner`, for a container of zero
/// length along the axis.
pub open spec fn collapsed_rect(d: Direction, inner: Rect) -> Rect {
    match d {
        Direction::Horizontal => Rect { width: 0, ..inner },
        Direction::Vertical => Rect { height: 0, ..inner },
    }
}

/// What solving a layout yields. A container with no length along the axis
/// gives every child no length, at its start.
pub open spec fn layout_result(
    d: Direction,
    area: Rect,
    cs: Seq<Constraint>,
    flex: Flex,
    m: Margin,
) -> Result<Seq<Rect>, LayoutError> {
    let inner = inner_area(area, m);
    if !area.wf() {
        Err(LayoutError::InvalidArea)
    } else if primary_len(d, inner) == 0 {
        Ok(Seq::new(cs.len(), |i: int| collapsed_rect(d, inner)))
    } else if !children_fit(d, inner, cs, flex) {
        Err(LayoutError::OutOfRange)
    } else {
        Ok(Seq::new(cs.len(), |i: int| child_rect(d, inner, cs, flex, i)))
    }
}

/// A solver result seen as plain values.
pub open spec fn result_view(r: Result<Vec<Rect>, LayoutError>) -> Result<Seq<Rect>, LayoutError> {
    match r {
        Ok(v) => Ok(v@),
        Err(e) => Err(e),
    }
}

fn margin_cut_exec(m: u16, len: u16) -> (r: u16)
    ensures
        r == margin_cut(m, len),
{
    if m <= len / 2 {
        m
    } else {
        len / 2
    }
}

fn natural_exec(c: Constraint, l: u64) -> (r: u64)
    requires
        l <= 65535,
    ensures
        r == natural(c, l as int),
{
    match c {
        Constraint::Fixed(n) => n as u64,
        Constraint::Min(n) => n as u64,
        Constraint::Max(n) => n as u64,
        Constraint::Length(n) => n as u64,
        Constraint::Percentage(p) => {
            assert(p * l * 2 + 100 <= 65535 * 65535 * 2 + 100) by (nonlinear_arith)
                requires
                    p <= 65535,
                    l <= 65535,
            ;
            (p as u64 * l * 2 + 100) / 200
        },
        Constraint::Ratio(a, b) => {
            if b == 0 {
                0
            } else {
                assert(2 * a * l + b <= 2 * 0xffff_ffff * 65535 + 0xffff_ffff) by (nonlinear_arith)
                    requires
                        a <= 0xffff_ffff,
                        b <= 0xffff_ffff,
                        l <= 65535,
                ;
                (2 * a as u64 * l + b as u64) / (2 * b as u64)
            }
        },
        Constraint::Proportional(_) => 0,
    }
}

/// Splits `area` along `direction` into one rectangle per constraint, in
/// order, after taking `margin` off each side. Each child spans the whole
/// inner area across the axis.
pub fn solve(
    direction: Direction,
    area: Rect,
    constraints: &Vec<Constraint>,
    flex: Flex,
    margin: Margin,
) -> (r: Result<Vec<Rect>, LayoutError>)
    ensures
        result_view(r) == layout_result(direction, area, constraints@, flex, margin),
{
    if area.width > COORD_MAX - area.x || area.height > COORD_MAX - area.y {
        return Err(LayoutError::InvalidArea);
    }
    let h = margin_cut_exec(margin.horizontal, area.width);
    let v = margin_cut_exec(margin.vertical, area.height);
    let inner = Rect { x: area.x + h, y: area.y + v, width: area.width - 2 * h, height: area.height - 2 * v };
    assert(inner == inner_area(area, margin));
    let (start, l): (u64, u64) = match direction {
        Direction::Horizontal => (inner.x as u64, inner.width as u64),
        Direction::Vertical => (inner.y as u64, inner.height as u64),
    };
    let ghost cs = constraints@;
    let ghost li = l as int;
    let n = constraints.len();
    if l == 0 {
        let collapsed = match direction {
            Direction::Horizontal => Rect { width: 0, ..inner },
            Direction::Vertical => Rect { height: 0, ..inner },
        };
        let mut rects: Vec<Rect> = Vec::new();
        let mut i: usize = 0;
        while i < n
            invariant
                0 <= i <= n,
                collapsed == collapsed_rect(direction, inner),
                rects@ == Seq::new(i as nat, |j: int| collapsed_rect(direction, inner)),
            decreases n - i,
        {
            rects.push(collapsed);
            i = i + 1;
            assert(rects@ =~= Seq::new(i as nat, |j: int| collapsed_rect(direction, inner)));
        }
        return Ok(rects);
    }

    // Totals over the whole list.
    let mut ft: u128 = 0;
    let mut wt: u128 = 0;
    let mut gc: usize = 0;
    let mut pc: usize = 0;
    let mut lg1: usize = 0;
    let mut lp1: usize = 0;
    let mut i: usize = 0;
    while i < n
        invariant
            0 <= i <= n,
            n == cs.len(),
            cs == constraints@,
            ft == fixed_total(cs, i as int),
            wt == weight_total(cs, i as int),
            gc == grow_count(cs, i as int),
            pc == prop_count(cs, i as int),
            lg1 == last_grow(cs, i as int) + 1,
            lp1 == last_prop(cs, i as int) + 1,
        decreases n - i,
    {
        proof {
            lemma_totals(cs, i as int + 1);
            assert(65535 * (i + 1) <= 65535 * 0x1_0000_0000_0000_0000int) by (nonlinear_arith)
                requires
                    i + 1 <= 0x1_0000_0000_0000_0000int,
            ;
        }
        let c = constraints[i];
        match c {
            Constraint::Fixed(x) => {
                ft = ft + x as u128;
            },
            Constraint::Proportional(w) => {
                wt = wt + w as u128;
                pc = pc + 1;
                lp1 = i + 1;
            },
            _ => {},
        }
        match c {
            Constraint::Min(_) | Constraint::Length(_) | Constraint::Percentage(_) | Constraint::Ratio(
                _,
                _,
            ) => {
                gc = gc + 1;
                lg1 = i + 1;
            },
            _ => {},
        }
        i = i + 1;
    }
    proof {
        lemma_totals(cs, n as int);
    }
    let avail: u64 = if ft <= l as u128 {
        (l as u128 - ft) as u64
    } else {
        0
    };
    assert(avail == available(cs, li));

    // Sizes before the leftover is handed out.
    let mut bases: Vec<u64> = Vec::new();
    let mut u: u64 = 0;
    i = 0;
    while i < n
        invariant
            0 <= i <= n,
            n == cs.len(),
            cs == constraints@,
            l <= 65535,
            li == l,
            avail == available(cs, li),
            avail <= 65535,
            u == flex_used(cs, li, i as int),
            bases@.len() == i,
            forall|j: int| 0 <= j < i ==> bases@[j] == base_size(cs, li, j),
        decreases n - i,
    {
        proof {
            lemma_flex_used(cs, li, i as int + 1);
        }
        let c = constraints[i];
        match c {
            Constraint::Fixed(x) => {
                bases.push(x as u64);
            },
            Constraint::Proportional(_) => {
                bases.push(0);
            },
            _ => {
                let want = natural_exec(c, l);
                let left = avail - u;
                let take = if want <= left {
                    want
                } else {
                    left
                };
                bases.push(take);
                u = u + take;
            },
        }
        i = i + 1;
    }
    proof {
        lemma_flex_used(cs, li, n as int);
    }
    let e: u64 = avail - u;
    assert(e == leftover(cs, li));
    let sp: u64 = if pc > 0 || (gc > 0 && (matches!(flex, Flex::Stretch) || matches!(flex, Flex::StretchLast))) {
        0
    } else {
        e
    };
    assert(sp == spare(cs, li, flex));
    proof {
        if wt > 0 {
            lemma_share_floor(cs, e as int, wt as int, n as int);
            assert(share_floor_total(cs, e as int, wt as int, n as int) <= e) by (nonlinear_arith)
                requires
                    share_floor_total(cs, e as int, wt as int, n as int) * wt <= e * wt,
                    wt > 0,
            ;
        }
    }

    // Hand out the leftover, place each child and check it fits.
    let mut rects: Vec<Rect> = Vec::new();
    let mut fl: u128 = 0;
    let mut off: u64 = if n > 0 {
        gap_exec(flex, n, sp, 0)
    } else {
        0
    };
    i = 0;
    while i < n
        invariant
            0 <= i <= n,
            n == cs.len(),
            cs == constraints@,
            l <= 65535,
            li == l,
            start == primary_start(direction, inner),
            li == primary_len(direction, inner),
            inner.wf(),
            area.wf(),
            inner == inner_area(area, margin),
            l > 0,
            bases@.len() == n,
            forall|j: int| 0 <= j < n ==> bases@[j] == base_size(cs, li, j),
            avail == available(cs, li),
            avail <= 65535,
            e == leftover(cs, li),
            e <= avail,
            sp == spare(cs, li, flex),
            sp <= e,
            wt == weight_total(cs, n as int),
            gc == grow_count(cs, n as int),
            pc == prop_count(cs, n as int),
            lg1 == last_grow(cs, n as int) + 1,
            lp1 == last_prop(cs, n as int) + 1,
            wt > 0 ==> share_floor_total(cs, e as int, wt as int, n as int) <= e,
            wt > 0 ==> fl == share_floor_total(cs, e as int, wt as int, i as int),
            i < n ==> off == offset(cs, li, flex, i as int),
            start + off <= 3 * 65535,
            rects@.len() == i,
            forall|j: int| 0 <= j < i ==> rects@[j] == child_rect(direction, inner, cs, flex, j),
            forall|j: int|
                0 <= j < i ==> start + #[trigger] offset(cs, li, flex, j) + size(cs, li, flex, j)
                    <= COORD_MAX,
        decreases n - i,
    {
        let c = constraints[i];
        let base = bases[i];
        proof {
            lemma_flex_used(cs, li, i as int);
            lemma_totals(cs, n as int);
            lemma_flex_used(cs, li, i as int + 1);
            lemma_flex_used(cs, li, n as int);
            if wt > 0 {
                lemma_share_floor_mono(cs, e as int, wt as int, i as int + 1, n as int);
            }
            if wt > 0 && i as int == last_prop(cs, n as int) {
                lemma_share_floor_after(cs, e as int, wt as int, n as int);
            }
        }
        let ex: u64 = if pc > 0 {
            match c {
                Constraint::Proportional(w) => {
                    if wt == 0 {
                        if i + 1 == lp1 {
                            e
                        } else {
                            0
                        }
                    } else {
                        assert(e * w <= 65535 * 65535) by (nonlinear_arith)
                            requires
                                e <= 65535,
                                w <= 65535,
                        ;
                        let share = (e as u128 * w as u128 / wt) as u64;
                        assert(share <= e) by (nonlinear_arith)
                            requires
                                share as int == (e as int) * (w as int) / (wt as int),
                                w <= wt,
                                wt > 0,
                        ;
                        if i + 1 == lp1 {
                            (e as u128 - fl) as u64
                        } else {
                            share
                        }
                    }
                },
                _ => 0,
            }
        } else {
            match c {
                Constraint::Min(_) | Constraint::Length(_) | Constraint::Percentage(_)
                | Constraint::Ratio(_, _) => match flex {
                    Flex::Stretch => {
                        let q = e / gc as u64;
                        assert(q + e % (gc as u64) <= e) by (nonlinear_arith)
                            requires
                                gc >= 1,
                                q == e / (gc as u64),
                        ;
                        if i + 1 == lg1 {
                            q + e % gc as u64
                        } else {
                            q
                        }
                    },
                    Flex::StretchLast => {
                        if i + 1 == lg1 {
                            e
                        } else {
                            0
                        }
                    },
                    _ => 0,
                },
                _ => 0,
            }
        };
        assert(ex == extra(cs, li, flex, i as int));
        assert(base == base_size(cs, li, i as int));
        assert(base <= 65535);
        assert(ex <= e);
        let sz = base + ex;
        if start + off + sz > COORD_MAX as u64 {
            assert(start + offset(cs, li, flex, i as int) + size(cs, li, flex, i as int) > COORD_MAX);
            assert(!children_fit(direction, inner, cs, flex));
            assert(area.wf());
            return Err(LayoutError::OutOfRange);
        }
        let rect = match direction {
            Direction::Horizontal => Rect {
                x: (start + off) as u16,
                y: inner.y,
                width: sz as u16,
                height: inner.height,
            },
            Direction::Vertical => Rect {
                x: inner.x,
                y: (start + off) as u16,
                width: inner.width,
                height: sz as u16,
            },
        };
        rects.push(rect);
        if wt > 0 {
            match c {
                Constraint::Proportional(w) => {
                    fl = fl + (e as u128 * w as u128 / wt);
                },
                _ => {},
            }
        }
        if i + 1 < n {
            off = off + sz + gap_exec(flex, n, sp, i + 1);
        }
        i = i + 1;
    }
    assert(children_fit(direction, inner, cs, flex));
    assert(rects@ == Seq::new(cs.len(), |j: int| child_rect(direction, inner, cs, flex, j)));
    Ok(rects)
}

fn gap_exec(flex: Flex, n: usize, spare: u64, i: usize) -> (r: u64)
    requires
        i < n,
        spare <= 65535,
    ensures
        r == gap_for(flex, n as int, spare as int, i as int),
        r <= spare,
{
    match flex {
        Flex::End => if i == 0 {
            spare
        } else {
            0
        },
        Flex::Center => if i == 0 {
            spare / 2
        } else {
            0
        },
        Flex::SpaceAround => if n >= 65536 {
            assert(spare as int / (n as int + 1) == 0) by (nonlinear_arith)
                requires
                    spare <= 65535,
                    n >= 65536,
            ;
            0
        } else {
            spare / (n as u64 + 1)
        },
        Flex::SpaceBetween => if n <= 1 || i == 0 {
            0
        } else {
            let k = (n - 1) as u64;
            let q = spare / k;
            if i == n - 1 {
                assert(q + spare % k == spare - (k - 1) * q) by (nonlinear_arith)
                    requires
                        k > 0,
                        q == spare / k,
                ;
                q + spare % k
            } else {
                q
            }
        },
        _ => 0,
    }
}

} // verus!

verus! {

/// Copies a list of constraints.
pub fn copy_constraints(v: &Vec<Constraint>) -> (r: Vec<Constraint>)
    ensures
        r@ == v@,
{
    let mut r: Vec<Constraint> = Vec::new();
    let mut i: usize = 0;
    while i < v.len()
        invariant
            0 <= i <= v.len(),
            r@ == v@.subrange(0, i as int),
        decreases v.len() - i,
    {
        r.push(v[i]);
        i = i + 1;
    }
    assert(r@ == v@.subrange(0, v.len() as int));
    r
}

/// Whether two lists hold the same constraints in the same order.
pub fn same_constraints(a: &Vec<Constraint>, b: &Vec<Constraint>) -> (r: bool)
    ensures
        r == (a@ == b@),
{
    if a.len() != b.len() {
        return false;
    }
    let mut i: usize = 0;
    while i < a.len()
        invariant
            0 <= i <= a.len(),
            a.len() == b.len(),
            a@.subrange(0, i as int) == b@.subrange(0, i as int),
        decreases a.len() - i,
    {
        if a[i] != b[i] {
            assert(a@[i as int] != b@[i as int]);
            return false;
        }
        assert(a@.subrange(0, i as int + 1) == a@.subrange(0, i as int).push(a@[i as int]));
        assert(b@.subrange(0, i as int + 1) == b@.subrange(0, i as int).push(b@[i as int]));
        i = i + 1;
    }
    assert(a@ == a@.subrange(0, a.len() as int));
    assert(b@ == b@.subrange(0, b.len() as int));
    true
}

impl Layout {
    /// A layout along `direction` with the given constraints, stretching and without margin.
    pub fn new(direction: Direction, constraints: Vec<Constraint>) -> (r: Layout)
        ensures
            r.direction == direction,
            r.constraints@ == constraints@,
            r.flex == Flex::Stretch,
            r.margin == (Margin { horizontal: 0, vertical: 0 }),
    {
        Layout { direction, constraints, flex: Flex::Stretch, margin: Margin { horizontal: 0, vertical: 0 } }
    }

    pub fn horizontal(constraints: Vec<Constraint>) -> (r: Layout)
        ensures
            r.direction == Direction::Horizontal,
            r.constraints@ == constraints@,
            r.flex == Flex::Stretch,
            r.margin == (Margin { horizontal: 0, vertical: 0 }),
    {
        Layout::new(Direction::Horizontal, constraints)
    }

    pub fn vertical(constraints: Vec<Constraint>) -> (r: Layout)
        ensures
            r.direction == Direction::Vertical,
            r.constraints@ == constraints@,
            r.flex == Flex::Stretch,
            r.margin == (Margin { horizontal: 0, vertical: 0 }),
    {
        Layout::new(Direction::Vertical, constraints)
    }

    /// Sets how leftover room is handed out.
    pub fn flex(self, flex: Flex) -> (r: Layout)
        ensures
            r.flex == flex,
            r.direction == self.direction,
            r.constraints@ == self.constraints@,
            r.margin == self.margin,
    {
        Layout { flex, ..self }
    }

    /// Sets the same margin on all four sides.
    pub fn margin(self, margin: u16) -> (r: Layout)
        ensures
            r.margin == (Margin { horizontal: margin, vertical: margin }),
            r.flex == self.flex,
            r.direction == self.direction,
            r.constraints@ == self.constraints@,
    {
        Layout { margin: Margin { horizontal: margin, vertical: margin }, ..self }
    }

    /// Sets the margin on the left and right sides.
    pub fn horizontal_margin(self, horizontal: u16) -> (r: Layout)
        ensures
            r.margin == (Margin { horizontal, vertical: self.margin.vertical }),
            r.flex == self.flex,
            r.direction == self.direction,
            r.constraints@ == self.constraints@,
    {
        let vertical = self.margin.vertical;
        Layout { margin: Margin { horizontal, vertical }, ..self }
    }

    /// Sets the margin on the top and bottom sides.
    pub fn vertical_margin(self, vertical: u16) -> (r: Layout)
        ensures
            r.margin == (Margin { horizontal: self.margin.horizontal, vertical }),
            r.flex == self.flex,
            r.direction == self.direction,
            r.constraints@ == self.constraints@,
    {
        let horizontal = self.margin.horizontal;
        Layout { margin: Margin { horizontal, vertical }, ..self }
    }

    /// Splits `area` into one rectangle per constraint.
    pub fn split(&self, area: Rect) -> (r: Result<Vec<Rect>, LayoutError>)
        ensures
            result_view(r) == layout_result(self.direction, area, self.constraints@, self.flex, self.margin),
    {
        solve(self.direction, area, &self.constraints, self.flex, self.margin)
    }
}

} // verus!
