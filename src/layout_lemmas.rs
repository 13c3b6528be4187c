//! What holds of every solved layout: children are placed in order without
//! overlapping, stay inside the container, and fill it under `Stretch`.

use vstd::prelude::*;
use crate::constraint::{
    available, base_size, extra, fixed_total, flex_used, gap, grow_count, grows, last_grow,
    last_prop, lemma_flex_used, lemma_share_floor, lemma_totals, leftover, offset, prop_count,
    share_floor_total, size, spare, weight, weight_total, Constraint, Flex,
};
use crate::geometry::{Direction, Rect, COORD_MAX};
use crate::layout::{
    child_rect, children_fit, collapsed_rect, inner_area, layout_result, margin_cut, primary_len, primary_start,
    Margin,
};

verus! {

/// Sum of the first `i` child sizes.
pub open spec fn size_total(cs: Seq<Constraint>, l: int, flex: Flex, i: int) -> int
    decreases i,
{
    if i <= 0 {
        0
    } else {
        size_total(cs, l, flex, i - 1) + size(cs, l, flex, i - 1)
    }
}

/// Sum of the blank space before each of the first `i` children.
pub open spec fn gap_total(cs: Seq<Constraint>, l: int, flex: Flex, i: int) -> int
    decreases i,
{
    if i <= 0 {
        0
    } else {
        gap_total(cs, l, flex, i - 1) + gap(cs, l, flex, i - 1)
    }
}

pub open spec fn base_total(cs: Seq<Constraint>, l: int, i: int) -> int
    decreases i,
{
    if i <= 0 {
        0
    } else {
        base_total(cs, l, i - 1) + base_size(cs, l, i - 1)
    }
}

pub open spec fn extra_total(cs: Seq<Constraint>, l: int, flex: Flex, i: int) -> int
    decreases i,
{
    if i <= 0 {
        0
    } else {
        extra_total(cs, l, flex, i - 1) + extra(cs, l, flex, i - 1)
    }
}

/// Sum of the lengths along `d` of the first `i` rectangles.
pub open spec fn rect_len_total(d: Direction, rs: Seq<Rect>, i: int) -> int
    decreases i,
{
    if i <= 0 {
        0
    } else {
        rect_len_total(d, rs, i - 1) + primary_len(d, rs[i - 1])
    }
}

proof fn lemma_base_total(cs: Seq<Constraint>, l: int, i: int)
    requires
        0 <= i <= cs.len(),
        l >= 0,
    ensures
        base_total(cs, l, i) == fixed_total(cs, i) + flex_used(cs, l, i),
    decreases i,
{
    if i > 0 {
        lemma_base_total(cs, l, i - 1);
    }
}

proof fn lemma_leftover(cs: Seq<Constraint>, l: int)
    requires
        l >= 0,
    ensures
        0 <= leftover(cs, l) <= available(cs, l),
        available(cs, l) <= l,
        0 <= spare(cs, l, Flex::Stretch) <= leftover(cs, l),
{
    lemma_flex_used(cs, l, cs.len() as int);
    lemma_totals(cs, cs.len() as int);
}

/// Each child gets a non-negative size, and the gaps are non-negative.
proof fn lemma_size_nonneg(cs: Seq<Constraint>, l: int, flex: Flex, i: int)
    requires
        0 <= i < cs.len(),
        l >= 0,
    ensures
        base_size(cs, l, i) >= 0,
        extra(cs, l, flex, i) >= 0,
        size(cs, l, flex, i) >= 0,
        gap(cs, l, flex, i) >= 0,
{
    let n = cs.len() as int;
    lemma_flex_used(cs, l, i + 1);
    lemma_flex_used(cs, l, n);
    lemma_totals(cs, n);
    let e = leftover(cs, l);
    let w = weight_total(cs, n);
    assert(e >= 0);
    if w > 0 {
        lemma_share_floor(cs, e, w, n);
        assert(share_floor_total(cs, e, w, n) <= e) by (nonlinear_arith)
            requires
                share_floor_total(cs, e, w, n) * w <= e * w,
                w > 0,
        ;
        assert(weight(cs[i]) >= 0);
        assert(e * weight(cs[i]) / w >= 0) by (nonlinear_arith)
            requires
                e >= 0,
                weight(cs[i]) >= 0,
                w > 0,
        ;
    }
    if grow_count(cs, n) > 0 {
        let k = grow_count(cs, n);
        assert(e / k >= 0 && e % k >= 0) by (nonlinear_arith)
            requires
                e >= 0,
                k > 0,
        ;
    }
    let s = spare(cs, l, flex);
    assert(s >= 0);
    assert(s / 2 >= 0);
    assert(s / (n + 1) >= 0) by (nonlinear_arith)
        requires
            s >= 0,
            n >= 0,
    ;
    if n > 1 {
        assert(s / (n - 1) >= 0 && s % (n - 1) >= 0) by (nonlinear_arith)
            requires
                s >= 0,
                n > 1,
        ;
    }
}

/// The leftover room that is not laid out as gaps goes to the children.
proof fn lemma_extra_total(cs: Seq<Constraint>, l: int, flex: Flex, i: int)
    requires
        0 <= i <= cs.len(),
        l >= 0,
    ensures
        ({
            let n = cs.len() as int;
            let e = leftover(cs, l);
            let w = weight_total(cs, n);
            let k = grow_count(cs, n);
            if prop_count(cs, n) > 0 {
                if w == 0 {
                    extra_total(cs, l, flex, i) == if last_prop(cs, n) < i {
                        e
                    } else {
                        0
                    }
                } else {
                    extra_total(cs, l, flex, i) == share_floor_total(cs, e, w, i) + if last_prop(
                        cs,
                        n,
                    ) < i {
                        e - share_floor_total(cs, e, w, n)
                    } else {
                        0
                    }
                }
            } else if k > 0 && flex is Stretch {
                extra_total(cs, l, flex, i) == grow_count(cs, i) * (e / k) + if last_grow(cs, n)
                    < i {
                    e % k
                } else {
                    0
                }
            } else if k > 0 && flex is StretchLast {
                extra_total(cs, l, flex, i) == if last_grow(cs, n) < i {
                    e
                } else {
                    0
                }
            } else {
                extra_total(cs, l, flex, i) == 0
            }
        }),
    decreases i,
{
    let n = cs.len() as int;
    lemma_totals(cs, n);
    if i > 0 {
        lemma_extra_total(cs, l, flex, i - 1);
        let e = leftover(cs, l);
        let k = grow_count(cs, n);
        if prop_count(cs, n) == 0 && k > 0 && flex is Stretch {
            let g = grow_count(cs, i - 1);
            if grows(cs[i - 1]) {
                assert((g + 1) * (e / k) == g * (e / k) + e / k) by (nonlinear_arith);
            }
        }
    }
}

/// All the leftover room is accounted for, and nothing more.
proof fn lemma_extra_and_gaps(cs: Seq<Constraint>, l: int, flex: Flex)
    requires
        l >= 0,
    ensures
        ({
            let n = cs.len() as int;
            let e = leftover(cs, l);
            &&& 0 <= extra_total(cs, l, flex, n)
            &&& 0 <= gap_total(cs, l, flex, n)
            &&& extra_total(cs, l, flex, n) + gap_total(cs, l, flex, n) <= e
            &&& (prop_count(cs, n) > 0 || (grow_count(cs, n) > 0 && flex is Stretch))
                ==> extra_total(cs, l, flex, n) == e
        }),
{
    let n = cs.len() as int;
    let e = leftover(cs, l);
    let s = spare(cs, l, flex);
    lemma_totals(cs, n);
    lemma_leftover(cs, l);
    lemma_extra_total(cs, l, flex, n);
    lemma_gap_total(cs, l, flex, n);
    let w = weight_total(cs, n);
    let k = grow_count(cs, n);
    if prop_count(cs, n) > 0 && w > 0 {
        lemma_share_floor(cs, e, w, n);
    }
    if prop_count(cs, n) == 0 && k > 0 && flex is Stretch {
        assert(k * (e / k) + e % k == e) by (nonlinear_arith)
            requires
                k > 0,
        ;
        assert(e / k >= 0 && e % k >= 0) by (nonlinear_arith)
            requires
                e >= 0,
                k > 0,
        ;
        assert(k * (e / k) >= 0) by (nonlinear_arith)
            requires
                e / k >= 0,
                k > 0,
        ;
    }
    if prop_count(cs, n) > 0 && w > 0 {
        assert(share_floor_total(cs, e, w, n) <= e) by (nonlinear_arith)
            requires
                share_floor_total(cs, e, w, n) * w <= e * w,
                w > 0,
        ;
    }
}

/// The gaps add up to no more than the spare room.
proof fn lemma_gap_total(cs: Seq<Constraint>, l: int, flex: Flex, i: int)
    requires
        0 <= i <= cs.len(),
        l >= 0,
    ensures
        0 <= gap_total(cs, l, flex, i) <= spare(cs, l, flex),
        spare(cs, l, flex) == 0 ==> gap_total(cs, l, flex, i) == 0,
{
    let n = cs.len() as int;
    let s = spare(cs, l, flex);
    lemma_leftover(cs, l);
    lemma_flex_used(cs, l, n);
    assert(s >= 0);
    match flex {
        Flex::SpaceAround => {
            lemma_gap_around_sum(cs, l, i);
            if i > 0 {
                lemma_gap_around(s, n, i);
            }
        },
        Flex::SpaceBetween => {
            lemma_gap_between_sum(cs, l, i);
            if n > 1 && i > 0 {
                lemma_gap_between(s, n, i);
            }
        },
        Flex::End | Flex::Center => {
            if i > 0 {
                lemma_gap_single(cs, l, flex, i);
            } else {
                assert(gap_total(cs, l, flex, 0) == 0);
            }
        },
        _ => {
            lemma_gap_none(cs, l, flex, i);
        },
    }
}

proof fn lemma_gap_none(cs: Seq<Constraint>, l: int, flex: Flex, i: int)
    requires
        0 <= i <= cs.len(),
        flex is Stretch || flex is StretchLast || flex is Start,
    ensures
        gap_total(cs, l, flex, i) == 0,
    decreases i,
{
    if i > 0 {
        lemma_gap_none(cs, l, flex, i - 1);
    }
}

proof fn lemma_gap_around_sum(cs: Seq<Constraint>, l: int, i: int)
    requires
        0 <= i <= cs.len(),
    ensures
        gap_total(cs, l, Flex::SpaceAround, i) == i * (spare(cs, l, Flex::SpaceAround) / (
        cs.len() as int + 1)),
    decreases i,
{
    let q = spare(cs, l, Flex::SpaceAround) / (cs.len() as int + 1);
    if i > 0 {
        lemma_gap_around_sum(cs, l, i - 1);
        assert(gap(cs, l, Flex::SpaceAround, i - 1) == q);
        assert(i * q == (i - 1) * q + q) by (nonlinear_arith);
        assert(gap_total(cs, l, Flex::SpaceAround, i) == gap_total(cs, l, Flex::SpaceAround, i - 1)
            + q);
    } else {
        assert(gap_total(cs, l, Flex::SpaceAround, 0) == 0);
        assert(0 * q == 0);
    }
}

proof fn lemma_gap_around(s: int, n: int, i: int)
    requires
        s >= 0,
        0 < i <= n,
    ensures
        i * (s / (n + 1)) <= s,
        s == 0 ==> s / (n + 1) == 0,
{
    assert(i * (s / (n + 1)) <= s) by (nonlinear_arith)
        requires
            s >= 0,
            0 < i <= n,
    ;
}

proof fn lemma_gap_between(s: int, n: int, i: int)
    requires
        s >= 0,
        0 < i <= n,
        n > 1,
    ensures
        (i - 1) * (s / (n - 1)) + s % (n - 1) <= s,
        (i - 1) * (s / (n - 1)) <= s,
        s == 0 ==> s / (n - 1) == 0 && s % (n - 1) == 0,
{
    assert((i - 1) * (s / (n - 1)) + s % (n - 1) <= s) by (nonlinear_arith)
        requires
            s >= 0,
            0 < i <= n,
            n > 1,
    ;
    assert(s % (n - 1) >= 0) by (nonlinear_arith)
        requires
            n > 1,
    ;
}

proof fn lemma_gap_between_sum(cs: Seq<Constraint>, l: int, i: int)
    requires
        0 <= i <= cs.len(),
        l >= 0,
    ensures
        ({
            let n = cs.len() as int;
            let s = spare(cs, l, Flex::SpaceBetween);
            gap_total(cs, l, Flex::SpaceBetween, i) == if n <= 1 || i == 0 {
                0
            } else {
                (i - 1) * (s / (n - 1)) + if i == n {
                    s % (n - 1)
                } else {
                    0
                }
            }
        }),
    decreases i,
{
    let n = cs.len() as int;
    let s = spare(cs, l, Flex::SpaceBetween);
    if i > 0 {
        lemma_gap_between_sum(cs, l, i - 1);
        if i > 1 {
            assert((i - 1) * (s / (n - 1)) == (i - 2) * (s / (n - 1)) + s / (n - 1))
                by (nonlinear_arith);
        }
    }
}

proof fn lemma_gap_single(cs: Seq<Constraint>, l: int, flex: Flex, i: int)
    requires
        0 < i <= cs.len(),
        l >= 0,
        flex is End || flex is Center,
    ensures
        gap_total(cs, l, flex, i) == gap(cs, l, flex, 0),
    decreases i,
{
    if i > 1 {
        lemma_gap_single(cs, l, flex, i - 1);
    } else {
        assert(gap_total(cs, l, flex, 0) == 0);
    }
}

/// Where a child ends is the sizes and gaps up to and including it.
proof fn lemma_child_end(cs: Seq<Constraint>, l: int, flex: Flex, i: int)
    requires
        0 <= i < cs.len(),
    ensures
        offset(cs, l, flex, i) + size(cs, l, flex, i) == size_total(cs, l, flex, i + 1) + gap_total(
            cs,
            l,
            flex,
            i + 1,
        ),
    decreases i,
{
    if i > 0 {
        lemma_child_end(cs, l, flex, i - 1);
    } else {
        assert(gap_total(cs, l, flex, 0) == 0);
        assert(size_total(cs, l, flex, 0) == 0);
    }
}

proof fn lemma_totals_mono(cs: Seq<Constraint>, l: int, flex: Flex, i: int, j: int)
    requires
        0 <= i <= j <= cs.len(),
        l >= 0,
    ensures
        size_total(cs, l, flex, i) <= size_total(cs, l, flex, j),
        gap_total(cs, l, flex, i) <= gap_total(cs, l, flex, j),
    decreases j - i,
{
    if i < j {
        lemma_totals_mono(cs, l, flex, i, j - 1);
        lemma_size_nonneg(cs, l, flex, j - 1);
    }
}

proof fn lemma_size_total(cs: Seq<Constraint>, l: int, flex: Flex, i: int)
    requires
        0 <= i <= cs.len(),
    ensures
        size_total(cs, l, flex, i) == base_total(cs, l, i) + extra_total(cs, l, flex, i),
    decreases i,
{
    if i > 0 {
        lemma_size_total(cs, l, flex, i - 1);
    }
}

/// Without a `Fixed` overflow, every child ends within the container.
proof fn lemma_ends_within(cs: Seq<Constraint>, l: int, flex: Flex, i: int)
    requires
        0 <= i < cs.len(),
        l >= 0,
        fixed_total(cs, cs.len() as int) <= l,
    ensures
        0 <= offset(cs, l, flex, i),
        offset(cs, l, flex, i) + size(cs, l, flex, i) <= l,
{
    let n = cs.len() as int;
    lemma_child_end(cs, l, flex, i);
    lemma_totals_mono(cs, l, flex, i + 1, n);
    lemma_size_total(cs, l, flex, n);
    lemma_base_total(cs, l, n);
    lemma_extra_and_gaps(cs, l, flex);
    lemma_size_nonneg(cs, l, flex, i);
    lemma_offset_nonneg(cs, l, flex, i);
}

proof fn lemma_offset_nonneg(cs: Seq<Constraint>, l: int, flex: Flex, i: int)
    requires
        0 <= i < cs.len(),
        l >= 0,
    ensures
        0 <= offset(cs, l, flex, i),
    decreases i,
{
    lemma_size_nonneg(cs, l, flex, i);
    if i > 0 {
        lemma_offset_nonneg(cs, l, flex, i - 1);
        lemma_size_nonneg(cs, l, flex, i - 1);
    }
}

/// A later child starts no earlier than an earlier one ends.
proof fn lemma_in_order(cs: Seq<Constraint>, l: int, flex: Flex, i: int, j: int)
    requires
        0 <= i < j < cs.len(),
        l >= 0,
    ensures
        offset(cs, l, flex, i) + size(cs, l, flex, i) <= offset(cs, l, flex, j),
    decreases j - i,
{
    lemma_size_nonneg(cs, l, flex, j);
    lemma_size_nonneg(cs, l, flex, j - 1);
    if i < j - 1 {
        lemma_in_order(cs, l, flex, i, j - 1);
    }
}

proof fn lemma_inner(area: Rect, m: Margin)
    requires
        area.wf(),
    ensures
        inner_area(area, m).wf(),
        area.encloses(inner_area(area, m)),
{
    let h = margin_cut(m.horizontal, area.width);
    let v = margin_cut(m.vertical, area.height);
    assert(0 <= h && 2 * h <= area.width);
    assert(0 <= v && 2 * v <= area.height);
}

/// Children of a container that fit it: the layout succeeds and each child
/// is the rectangle that the model gives.
proof fn lemma_fits(d: Direction, area: Rect, cs: Seq<Constraint>, flex: Flex, m: Margin)
    requires
        area.wf(),
        fixed_total(cs, cs.len() as int) <= primary_len(d, inner_area(area, m)),
        primary_len(d, inner_area(area, m)) > 0,
    ensures
        children_fit(d, inner_area(area, m), cs, flex),
        layout_result(d, area, cs, flex, m) == Ok::<Seq<Rect>, crate::layout::LayoutError>(
            Seq::new(cs.len(), |i: int| child_rect(d, inner_area(area, m), cs, flex, i)),
        ),
{
    let inner = inner_area(area, m);
    let l = primary_len(d, inner);
    lemma_inner(area, m);
    assert forall|i: int| 0 <= i < cs.len() implies primary_start(d, inner) + #[trigger] offset(
        cs,
        l,
        flex,
        i,
    ) + size(cs, l, flex, i) <= COORD_MAX by {
        lemma_ends_within(cs, l, flex, i);
    }
}

/// Non-overlap and containment: when the `Fixed` sizes do not overflow the
/// container, the layout succeeds, no two children share a cell, and every
/// child lies within the container.
pub proof fn law_children_disjoint_and_enclosed(
    d: Direction,
    area: Rect,
    cs: Seq<Constraint>,
    flex: Flex,
    m: Margin,
)
    requires
        area.wf(),
        fixed_total(cs, cs.len() as int) <= primary_len(d, inner_area(area, m)),
    ensures
        layout_result(d, area, cs, flex, m) is Ok,
        ({
            let rs = layout_result(d, area, cs, flex, m)->Ok_0;
            &&& rs.len() == cs.len()
            &&& forall|i: int| 0 <= i < rs.len() ==> area.encloses(#[trigger] rs[i])
            &&& forall|i: int, j: int|
                0 <= i < rs.len() && 0 <= j < rs.len() && i != j ==> !(#[trigger] rs[i]).overlaps(
                    #[trigger] rs[j],
                )
        }),
{
    let inner = inner_area(area, m);
    let l = primary_len(d, inner);
    lemma_inner(area, m);
    if l == 0 {
        return;
    }
    lemma_fits(d, area, cs, flex, m);
    let rs = layout_result(d, area, cs, flex, m)->Ok_0;
    assert forall|i: int| 0 <= i < rs.len() implies area.encloses(#[trigger] rs[i]) by {
        lemma_ends_within(cs, l, flex, i);
        lemma_size_nonneg(cs, l, flex, i);
    }
    assert forall|i: int, j: int|
        0 <= i < rs.len() && 0 <= j < rs.len() && i != j implies !(#[trigger] rs[i]).overlaps(
        #[trigger] rs[j],
    ) by {
        lemma_ends_within(cs, l, flex, i);
        lemma_ends_within(cs, l, flex, j);
        lemma_size_nonneg(cs, l, flex, i);
        lemma_size_nonneg(cs, l, flex, j);
        if i < j {
            lemma_in_order(cs, l, flex, i, j);
        } else {
            lemma_in_order(cs, l, flex, j, i);
        }
    }
}

/// Under `Stretch`, a non-empty list of `Length`, `Percentage`, `Ratio` and
/// `Proportional` constraints fills the container exactly: the children's
/// lengths add up to the container's length (after the margin).
pub proof fn law_stretch_fills(d: Direction, area: Rect, cs: Seq<Constraint>, m: Margin)
    requires
        area.wf(),
        cs.len() > 0,
        forall|i: int|
            0 <= i < cs.len() ==> (#[trigger] cs[i] is Length || cs[i] is Percentage
                || cs[i] is Ratio || cs[i] is Proportional),
    ensures
        layout_result(d, area, cs, Flex::Stretch, m) is Ok,
        rect_len_total(d, layout_result(d, area, cs, Flex::Stretch, m)->Ok_0, cs.len() as int)
            == primary_len(d, inner_area(area, m)),
{
    let inner = inner_area(area, m);
    let l = primary_len(d, inner);
    let n = cs.len() as int;
    let flex = Flex::Stretch;
    lemma_no_fixed(cs, n);
    lemma_inner(area, m);
    if l == 0 {
        lemma_collapsed_total(d, inner, cs.len() as int, n);
        return;
    }
    lemma_fits(d, area, cs, flex, m);
    lemma_inner(area, m);
    let rs = layout_result(d, area, cs, flex, m)->Ok_0;
    // some constraint grows or is proportional, so the leftover is all handed out
    lemma_totals(cs, n);
    if prop_count(cs, n) == 0 {
        assert(grows(cs[0]));
        assert(grow_count(cs, n) > 0);
    }
    lemma_extra_and_gaps(cs, l, flex);
    lemma_size_total(cs, l, flex, n);
    lemma_base_total(cs, l, n);
    lemma_flex_used(cs, l, n);
    lemma_rect_lens(d, area, cs, flex, m, n);
}

proof fn lemma_no_fixed(cs: Seq<Constraint>, i: int)
    requires
        0 <= i <= cs.len(),
        forall|j: int| 0 <= j < cs.len() ==> !(#[trigger] cs[j] is Fixed),
    ensures
        fixed_total(cs, i) == 0,
    decreases i,
{
    if i > 0 {
        lemma_no_fixed(cs, i - 1);
        assert(!(cs[i - 1] is Fixed));
    }
}

proof fn lemma_collapsed_total(d: Direction, inner: Rect, n: int, i: int)
    requires
        0 <= i <= n,
        primary_len(d, inner) == 0,
    ensures
        rect_len_total(d, Seq::new(n as nat, |j: int| collapsed_rect(d, inner)), i) == 0,
    decreases i,
{
    if i > 0 {
        lemma_collapsed_total(d, inner, n, i - 1);
    }
}

proof fn lemma_rect_lens(d: Direction, area: Rect, cs: Seq<Constraint>, flex: Flex, m: Margin, i: int)
    requires
        area.wf(),
        primary_len(d, inner_area(area, m)) > 0,
        fixed_total(cs, cs.len() as int) <= primary_len(d, inner_area(area, m)),
        0 <= i <= cs.len(),
    ensures
        rect_len_total(d, layout_result(d, area, cs, flex, m)->Ok_0, i) == size_total(
            cs,
            primary_len(d, inner_area(area, m)),
            flex,
            i,
        ),
    decreases i,
{
    let inner = inner_area(area, m);
    let l = primary_len(d, inner);
    lemma_fits(d, area, cs, flex, m);
    lemma_inner(area, m);
    if i > 0 {
        lemma_rect_lens(d, area, cs, flex, m, i - 1);
        lemma_ends_within(cs, l, flex, i - 1);
        lemma_size_nonneg(cs, l, flex, i - 1);
    }
}

} // verus!
