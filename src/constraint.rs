//! Sizing policies for the children of a layout, and the spec model of how a
//! list of them shares out a length.

use vstd::prelude::*;

verus! {

/// How much room one child of a layout asks for along the layout's axis.
#[derive(Debug, Clone, Copy, PartialEq, Eq, Hash, Structural)]
pub enum Constraint {
    /// Exactly this many cells; granted first and never shrunk, even past
    /// the end of the container.
    Fixed(u16),
    /// This many cells, or what is left if less; grows under a stretching flex mode.
    Min(u16),
    /// This many cells, or what is left if less; never grows.
    Max(u16),
    /// This many cells, or what is left if less; grows under a stretching flex mode.
    Length(u16),
    /// This percentage of the container, rounded half up.
    Percentage(u16),
    /// This fraction of the container, rounded half up; a zero denominator asks for nothing.
    Ratio(u32, u32),
    /// A share, by weight, of what the other children leave.
    Proportional(u16),
}

/// How room that the constraints do not claim is handed out when no
/// `Proportional` constraint takes it.
#[derive(Debug, Clone, Copy, PartialEq, Eq, Hash, Structural)]
pub enum Flex {
    /// Every growable child grows by the same amount; the last one takes the remainder.
    Stretch,
    /// The last growable child takes all of it.
    StretchLast,
    /// Children are packed at the start; the room is left at the end.
    Start,
    /// Children are centered; the extra cell of an odd room goes after them.
    Center,
    /// Children are packed at the end.
    End,
    /// Equal gaps before, between and after the children; the last gap takes the remainder.
    SpaceAround,
    /// Equal gaps between the children; the last gap takes the remainder.
    SpaceBetween,
}

pub open spec fn is_flexible(c: Constraint) -> bool {
    !(c is Fixed) && !(c is Proportional)
}

/// Constraints that a stretching flex mode may enlarge.
pub open spec fn grows(c: Constraint) -> bool {
    c is Min || c is Length || c is Percentage || c is Ratio
}

/// The size a constraint asks for in a container of length `l`.
pub open spec fn natural(c: Constraint, l: int) -> int {
    match c {
        Constraint::Fixed(n) => n as int,
        Constraint::Min(n) => n as int,
        Constraint::Max(n) => n as int,
        Constraint::Length(n) => n as int,
        Constraint::Percentage(p) => (p * l * 2 + 100) / 200,
        Constraint::Ratio(a, b) => if b == 0 {
            0
        } else {
            (2 * a * l + b) / (2 * b)
        },
        Constraint::Proportional(_) => 0,
    }
}

pub open spec fn fixed_value(c: Constraint) -> int {
    match c {
        Constraint::Fixed(n) => n as int,
        _ => 0,
    }
}

pub open spec fn weight(c: Constraint) -> int {
    match c {
        Constraint::Proportional(w) => w as int,
        _ => 0,
    }
}

/// Sum of the `Fixed` sizes among the first `i` constraints.
pub open spec fn fixed_total(cs: Seq<Constraint>, i: int) -> int
    decreases i,
{
    if i <= 0 {
        0
    } else {
        fixed_total(cs, i - 1) + fixed_value(cs[i - 1])
    }
}

/// Sum of the `Proportional` weights among the first `i` constraints.
pub open spec fn weight_total(cs: Seq<Constraint>, i: int) -> int
    decreases i,
{
    if i <= 0 {
        0
    } else {
        weight_total(cs, i - 1) + weight(cs[i - 1])
    }
}

/// How many of the first `i` constraints can grow.
pub open spec fn grow_count(cs: Seq<Constraint>, i: int) -> int
    decreases i,
{
    if i <= 0 {
        0
    } else {
        grow_count(cs, i - 1) + if grows(cs[i - 1]) {
            1int
        } else {
            0
        }
    }
}

/// How many of the first `i` constraints are `Proportional`.
pub open spec fn prop_count(cs: Seq<Constraint>, i: int) -> int
    decreases i,
{
    if i <= 0 {
        0
    } else {
        prop_count(cs, i - 1) + if cs[i - 1] is Proportional {
            1int
        } else {
            0
        }
    }
}

/// Index of the last growable constraint among the first `i`, or -1.
pub open spec fn last_grow(cs: Seq<Constraint>, i: int) -> int
    decreases i,
{
    if i <= 0 {
        -1
    } else if grows(cs[i - 1]) {
        i - 1
    } else {
        last_grow(cs, i - 1)
    }
}

/// Index of the last `Proportional` constraint among the first `i`, or -1.
pub open spec fn last_prop(cs: Seq<Constraint>, i: int) -> int
    decreases i,
{
    if i <= 0 {
        -1
    } else if cs[i - 1] is Proportional {
        i - 1
    } else {
        last_prop(cs, i - 1)
    }
}

/// Room left for the non-`Fixed` constraints: none when the `Fixed` ones overflow.
pub open spec fn available(cs: Seq<Constraint>, l: int) -> int {
    let f = fixed_total(cs, cs.len() as int);
    if f <= l {
        l - f
    } else {
        0
    }
}

/// Room taken by the flexible constraints among the first `i`: each takes
/// its natural size, or what is left of the available room if that is less.
pub open spec fn flex_used(cs: Seq<Constraint>, l: int, i: int) -> int
    decreases i,
{
    if i <= 0 {
        0
    } else {
        let u = flex_used(cs, l, i - 1);
        if is_flexible(cs[i - 1]) {
            let want = natural(cs[i - 1], l);
            let left = available(cs, l) - u;
            u + if want <= left {
                want
            } else {
                left
            }
        } else {
            u
        }
    }
}

/// Room that no constraint claimed.
pub open spec fn leftover(cs: Seq<Constraint>, l: int) -> int {
    available(cs, l) - flex_used(cs, l, cs.len() as int)
}

/// Sum of the rounded-down proportional shares among the first `i` constraints.
pub open spec fn share_floor_total(cs: Seq<Constraint>, e: int, w: int, i: int) -> int
    decreases i,
{
    if i <= 0 {
        0
    } else {
        share_floor_total(cs, e, w, i - 1) + if cs[i - 1] is Proportional {
            e * weight(cs[i - 1]) / w
        } else {
            0
        }
    }
}

/// The size a constraint gets before the leftover room is handed out.
pub open spec fn base_size(cs: Seq<Constraint>, l: int, i: int) -> int {
    match cs[i] {
        Constraint::Fixed(n) => n as int,
        Constraint::Proportional(_) => 0,
        _ => flex_used(cs, l, i + 1) - flex_used(cs, l, i),
    }
}

/// What the `i`-th constraint gets of the leftover room. `Proportional`
/// constraints share it by weight (the last one takes the rounding remainder,
/// or all of it if every weight is zero); without them the flex mode decides.
pub open spec fn extra(cs: Seq<Constraint>, l: int, flex: Flex, i: int) -> int {
    let n = cs.len() as int;
    let e = leftover(cs, l);
    if prop_count(cs, n) > 0 {
        if cs[i] is Proportional {
            let w = weight_total(cs, n);
            if w == 0 {
                if i == last_prop(cs, n) {
                    e
                } else {
                    0
                }
            } else if i == last_prop(cs, n) {
                e - share_floor_total(cs, e, w, n) + e * weight(cs[i]) / w
            } else {
                e * weight(cs[i]) / w
            }
        } else {
            0
        }
    } else if grows(cs[i]) {
        let k = grow_count(cs, n);
        match flex {
            Flex::Stretch => e / k + if i == last_grow(cs, n) {
                e % k
            } else {
                0
            },
            Flex::StretchLast => if i == last_grow(cs, n) {
                e
            } else {
                0
            },
            _ => 0,
        }
    } else {
        0
    }
}

/// The length the `i`-th child gets along the layout's axis.
pub open spec fn size(cs: Seq<Constraint>, l: int, flex: Flex, i: int) -> int {
    base_size(cs, l, i) + extra(cs, l, flex, i)
}

/// Leftover room that is laid out as blank space rather than given to children.
pub open spec fn spare(cs: Seq<Constraint>, l: int, flex: Flex) -> int {
    let n = cs.len() as int;
    if prop_count(cs, n) > 0 || (grow_count(cs, n) > 0 && (flex is Stretch || flex is StretchLast)) {
        0
    } else {
        leftover(cs, l)
    }
}

/// Blank space placed just before the `i`-th of `n` children when `s` cells are spare.
pub open spec fn gap_for(flex: Flex, n: int, s: int, i: int) -> int {
    match flex {
        Flex::End => if i == 0 {
            s
        } else {
            0
        },
        Flex::Center => if i == 0 {
            s / 2
        } else {
            0
        },
        Flex::SpaceAround => s / (n + 1),
        Flex::SpaceBetween => if n <= 1 || i == 0 {
            0
        } else {
            s / (n - 1) + if i == n - 1 {
                s % (n - 1)
            } else {
                0
            }
        },
        _ => 0,
    }
}

/// Blank space placed just before the `i`-th child.
pub open spec fn gap(cs: Seq<Constraint>, l: int, flex: Flex, i: int) -> int {
    gap_for(flex, cs.len() as int, spare(cs, l, flex), i)
}

/// Where the `i`-th child starts, counted from the start of the container.
pub open spec fn offset(cs: Seq<Constraint>, l: int, flex: Flex, i: int) -> int
    decreases i,
{
    if i <= 0 {
        gap(cs, l, flex, 0)
    } else {
        offset(cs, l, flex, i - 1) + size(cs, l, flex, i - 1) + gap(cs, l, flex, i)
    }
}

} // verus!

verus! {

pub proof fn lemma_natural_nonneg(c: Constraint, l: int)
    requires
        l >= 0,
    ensures
        natural(c, l) >= 0,
{
    match c {
        Constraint::Percentage(p) => {
            assert(p * l * 2 + 100 >= 0) by (nonlinear_arith)
                requires
                    l >= 0,
                    p >= 0,
            ;
        },
        Constraint::Ratio(a, b) => {
            if b != 0 {
                assert(2 * a * l + b >= 0) by (nonlinear_arith)
                    requires
                        l >= 0,
                        a >= 0,
                        b >= 0,
                ;
                assert((2 * a * l + b) / (2 * b) >= 0) by (nonlinear_arith)
                    requires
                        2 * a * l + b >= 0,
                        b > 0,
                ;
            }
        },
        _ => {},
    }
}

/// Bounds on the running totals over the first `i` constraints.
pub proof fn lemma_totals(cs: Seq<Constraint>, i: int)
    requires
        0 <= i <= cs.len(),
    ensures
        0 <= fixed_total(cs, i) <= 65535 * i,
        0 <= weight_total(cs, i) <= 65535 * i,
        0 <= grow_count(cs, i) <= i,
        0 <= prop_count(cs, i) <= i,
        -1 <= last_grow(cs, i) < i,
        -1 <= last_prop(cs, i) < i,
        (last_grow(cs, i) >= 0) == (grow_count(cs, i) > 0),
        (last_prop(cs, i) >= 0) == (prop_count(cs, i) > 0),
        last_grow(cs, i) >= 0 ==> grows(cs[last_grow(cs, i)]),
        last_prop(cs, i) >= 0 ==> cs[last_prop(cs, i)] is Proportional,
        forall|j: int| last_prop(cs, i) < j < i ==> !(#[trigger] cs[j] is Proportional),
        forall|j: int| 0 <= j < i && grows(#[trigger] cs[j]) ==> j <= last_grow(cs, i),
        forall|j: int| 0 <= j < i && #[trigger] cs[j] is Proportional ==> j <= last_prop(cs, i),
        forall|j: int| 0 <= j < i ==> weight(#[trigger] cs[j]) <= weight_total(cs, i),
    decreases i,
{
    if i > 0 {
        lemma_totals(cs, i - 1);
        assert(0 <= fixed_value(cs[i - 1]) <= 65535);
        assert(0 <= weight(cs[i - 1]) <= 65535);
    }
}

/// The flexible constraints never take more than the available room.
pub proof fn lemma_flex_used(cs: Seq<Constraint>, l: int, i: int)
    requires
        0 <= i <= cs.len(),
        l >= 0,
    ensures
        0 <= flex_used(cs, l, i) <= available(cs, l),
        i > 0 ==> flex_used(cs, l, i - 1) <= flex_used(cs, l, i),
    decreases i,
{
    if i > 0 {
        lemma_flex_used(cs, l, i - 1);
        lemma_natural_nonneg(cs[i - 1], l);
    }
}

/// The rounded-down shares never add up to more than their exact sum.
pub proof fn lemma_share_floor(cs: Seq<Constraint>, e: int, w: int, i: int)
    requires
        0 <= i <= cs.len(),
        e >= 0,
        w > 0,
    ensures
        0 <= share_floor_total(cs, e, w, i),
        share_floor_total(cs, e, w, i) * w <= e * weight_total(cs, i),
    decreases i,
{
    if i > 0 {
        lemma_share_floor(cs, e, w, i - 1);
        lemma_totals(cs, i);
        let a = e * weight(cs[i - 1]);
        assert(weight(cs[i - 1]) >= 0);
        assert(a >= 0) by (nonlinear_arith)
            requires
                e >= 0,
                weight(cs[i - 1]) >= 0,
                a == e * weight(cs[i - 1]),
        ;
        assert((a / w) * w <= a && a / w >= 0) by (nonlinear_arith)
            requires
                a >= 0,
                w > 0,
        ;
        let s = share_floor_total(cs, e, w, i - 1);
        assert(e * weight_total(cs, i) == e * weight_total(cs, i - 1) + a) by (nonlinear_arith)
            requires
                weight_total(cs, i) == weight_total(cs, i - 1) + weight(cs[i - 1]),
                a == e * weight(cs[i - 1]),
        ;
        if cs[i - 1] is Proportional {
            assert((s + a / w) * w == s * w + (a / w) * w) by (nonlinear_arith);
            assert(share_floor_total(cs, e, w, i) == s + a / w);
        }
    }
}

/// The shares of the constraints after the last `Proportional` one are all zero.
pub proof fn lemma_share_floor_after(cs: Seq<Constraint>, e: int, w: int, i: int)
    requires
        0 <= i <= cs.len(),
        last_prop(cs, cs.len() as int) < i,
    ensures
        share_floor_total(cs, e, w, i) == share_floor_total(
            cs,
            e,
            w,
            last_prop(cs, cs.len() as int) + 1,
        ),
    decreases i,
{
    lemma_totals(cs, cs.len() as int);
    if i > last_prop(cs, cs.len() as int) + 1 {
        lemma_share_floor_after(cs, e, w, i - 1);
        assert(!(cs[i - 1] is Proportional));
    }
}

} // verus!

verus! {

pub proof fn lemma_share_floor_mono(cs: Seq<Constraint>, e: int, w: int, i: int, j: int)
    requires
        0 <= i <= j <= cs.len(),
        e >= 0,
        w > 0,
    ensures
        share_floor_total(cs, e, w, i) <= share_floor_total(cs, e, w, j),
    decreases j - i,
{
    if i < j {
        lemma_share_floor_mono(cs, e, w, i, j - 1);
        let a = e * weight(cs[j - 1]);
        assert(weight(cs[j - 1]) >= 0);
        assert(a / w >= 0) by (nonlinear_arith)
            requires
                e >= 0,
                weight(cs[j - 1]) >= 0,
                a == e * weight(cs[j - 1]),
                w > 0,
        ;
    }
}

} // verus!
