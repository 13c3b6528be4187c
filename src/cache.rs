//! A bounded, least-recently-used memo of solved layouts.

use vstd::prelude::*;
use crate::constraint::{Constraint, Flex};
use crate::geometry::{Direction, Rect};
use crate::layout::{
    copy_constraints, layout_result, result_view, same_constraints, solve, Layout, LayoutError,
    Margin,
};

verus! {

/// What a layout is remembered by: everything that decides its solution.
pub struct CacheKey {
    pub direction: Direction,
    pub area: Rect,
    pub constraints: Seq<Constraint>,
    pub flex: Flex,
    pub margin: Margin,
}

/// The key of solving `layout` for `area`.
pub open spec fn key_of(layout: Layout, area: Rect) -> CacheKey {
    CacheKey {
        direction: layout.direction,
        area,
        constraints: layout.constraints@,
        flex: layout.flex,
        margin: layout.margin,
    }
}

/// One remembered layout: the key it was solved for and what came out.
pub struct CacheEntry {
    direction: Direction,
    area: Rect,
    constraints: Vec<Constraint>,
    flex: Flex,
    margin: Margin,
    result: Result<Vec<Rect>, LayoutError>,
}

impl CacheEntry {
    /// The entry holds what solving its key yields.
    pub closed spec fn holds_solution(self) -> bool {
        result_view(self.result) == layout_result(
            self.direction,
            self.area,
            self.constraints@,
            self.flex,
            self.margin,
        )
    }

    pub closed spec fn key(self) -> CacheKey {
        CacheKey {
            direction: self.direction,
            area: self.area,
            constraints: self.constraints@,
            flex: self.flex,
            margin: self.margin,
        }
    }

    pub closed spec fn has_key(
        self,
        d: Direction,
        area: Rect,
        cs: Seq<Constraint>,
        flex: Flex,
        m: Margin,
    ) -> bool {
        self.key() == (CacheKey { direction: d, area, constraints: cs, flex, margin: m })
    }

    pub closed spec fn answer(self) -> Result<Seq<Rect>, LayoutError> {
        result_view(self.result)
    }
}

/// Remembers up to `capacity` solved layouts; the one used longest ago is
/// dropped first. Entries are kept from least to most recently used.
pub struct LayoutCache {
    capacity: usize,
    entries: Vec<CacheEntry>,
}

fn copy_rects(v: &Vec<Rect>) -> (r: Vec<Rect>)
    ensures
        r@ == v@,
{
    let mut r: Vec<Rect> = Vec::new();
    let mut i: usize = 0;
    while i < v.len()
        invariant
            0 <= i <= v.len(),
            r@ == v@.subrange(0, i as int),
        decreases v.len() - i,
    {
        r.push(v[i]);
        i = i + 1;
    }
    assert(r@ == v@.subrange(0, v.len() as int));
    r
}

fn copy_result(r: &Result<Vec<Rect>, LayoutError>) -> (c: Result<Vec<Rect>, LayoutError>)
    ensures
        result_view(c) == result_view(*r),
{
    match r {
        Ok(v) => Ok(copy_rects(v)),
        Err(e) => Err(*e),
    }
}

impl LayoutCache {
    /// Every entry holds the solution of its key, and there are no more
    /// entries than the capacity.
    pub closed spec fn wf(self) -> bool {
        &&& self.entries@.len() <= self.capacity
        &&& forall|i: int| 0 <= i < self.entries@.len() ==> (#[trigger] self.entries@[i]).holds_solution()
        &&& forall|i: int, j: int|
            0 <= i < self.entries@.len() && 0 <= j < self.entries@.len() && i != j
                ==> (#[trigger] self.entries@[i]).key() != (#[trigger] self.entries@[j]).key()
    }

    /// The remembered keys, from least to most recently used.
    pub closed spec fn keys(self) -> Seq<CacheKey> {
        self.entries@.map_values(|e: CacheEntry| e.key())
    }

    pub closed spec fn capacity_spec(self) -> nat {
        self.capacity as nat
    }

    pub closed spec fn len_spec(self) -> nat {
        self.entries@.len()
    }

    /// What the cache remembers for a key, if anything.
    pub closed spec fn lookup(
        self,
        d: Direction,
        area: Rect,
        cs: Seq<Constraint>,
        flex: Flex,
        m: Margin,
    ) -> Option<Result<Seq<Rect>, LayoutError>> {
        if exists|i: int| 0 <= i < self.entries@.len() && (#[trigger] self.entries@[i]).has_key(d, area, cs, flex, m) {
            let i = choose|i: int| 0 <= i < self.entries@.len() && (#[trigger] self.entries@[i]).has_key(d, area, cs, flex, m);
            Some(self.entries@[i].answer())
        } else {
            None
        }
    }

    /// An empty cache that remembers at most `capacity` layouts.
    pub fn new(capacity: usize) -> (r: LayoutCache)
        ensures
            r.wf(),
            r.capacity_spec() == capacity,
            r.len_spec() == 0,
            r.keys() == Seq::<CacheKey>::empty(),
    {
        LayoutCache { capacity, entries: Vec::new() }
    }

    pub fn capacity(&self) -> (r: usize)
        ensures
            r == self.capacity_spec(),
    {
        self.capacity
    }

    /// How many layouts are remembered.
    pub fn len(&self) -> (r: usize)
        ensures
            r == self.len_spec(),
    {
        self.entries.len()
    }

    /// Forgets every layout.
    pub fn clear(&mut self)
        ensures
            final(self).wf(),
            final(self).capacity_spec() == old(self).capacity_spec(),
            final(self).len_spec() == 0,
            final(self).keys() == Seq::<CacheKey>::empty(),
    {
        self.entries = Vec::new();
        assert(self.keys() =~= Seq::<CacheKey>::empty());
    }

    fn find(&self, layout: &Layout, area: Rect) -> (r: Option<usize>)
        ensures
            match r {
                Some(i) => i < self.entries@.len() && self.entries@[i as int].has_key(
                    layout.direction,
                    area,
                    layout.constraints@,
                    layout.flex,
                    layout.margin,
                ),
                None => forall|i: int|
                    0 <= i < self.entries@.len() ==> !(#[trigger] self.entries@[i]).has_key(
                        layout.direction,
                        area,
                        layout.constraints@,
                        layout.flex,
                        layout.margin,
                    ),
            },
    {
        let mut i: usize = 0;
        while i < self.entries.len()
            invariant
                0 <= i <= self.entries@.len(),
                forall|j: int|
                    0 <= j < i ==> !(#[trigger] self.entries@[j]).has_key(
                        layout.direction,
                        area,
                        layout.constraints@,
                        layout.flex,
                        layout.margin,
                    ),
            decreases self.entries@.len() - i,
        {
            let e = &self.entries[i];
            if e.direction == layout.direction && e.area == area && e.flex == layout.flex
                && e.margin == layout.margin && same_constraints(&e.constraints, &layout.constraints) {
                return Some(i);
            }
            i = i + 1;
        }
        None
    }

    /// Whether the solution of `layout` for `area` is remembered.
    pub fn contains(&self, layout: &Layout, area: Rect) -> (r: bool)
        ensures
            r == self.keys().contains(key_of(*layout, area)),
    {
        let found = self.find(layout, area);
        proof {
            let k = key_of(*layout, area);
            match found {
                Some(i) => {
                    assert(self.keys()[i as int] == k);
                },
                None => {
                    assert forall|j: int| 0 <= j < self.keys().len() implies self.keys()[j] != k by {
                        assert(!self.entries@[j].has_key(
                            layout.direction,
                            area,
                            layout.constraints@,
                            layout.flex,
                            layout.margin,
                        ));
                    }
                },
            }
        }
        found.is_some()
    }

    /// Solves `layout` for `area`, reusing a remembered answer when there is
    /// one. The answer is always the one that solving afresh would give.
    /// A key found becomes the most recently used; a new key is remembered as
    /// the most recently used, and when the cache is full the least recently
    /// used key is dropped to make room.
    pub fn solve_cached(&mut self, layout: &Layout, area: Rect) -> (r: Result<Vec<Rect>, LayoutError>)
        requires
            old(self).wf(),
        ensures
            final(self).wf(),
            final(self).capacity_spec() == old(self).capacity_spec(),
            final(self).len_spec() <= final(self).capacity_spec(),
            final(self).capacity_spec() > 0 ==> final(self).lookup(
                layout.direction,
                area,
                layout.constraints@,
                layout.flex,
                layout.margin,
            ) is Some,
            result_view(r) == layout_result(layout.direction, area, layout.constraints@, layout.flex, layout.margin),
            old(self).keys().contains(key_of(*layout, area)) ==> exists|i: int|
                0 <= i < old(self).keys().len() && old(self).keys()[i] == key_of(*layout, area)
                    && final(self).keys() == old(self).keys().remove(i).push(key_of(*layout, area)),
            !old(self).keys().contains(key_of(*layout, area)) && old(self).capacity_spec() == 0
                ==> final(self).keys() == old(self).keys(),
            !old(self).keys().contains(key_of(*layout, area)) && old(self).capacity_spec() > 0
                && old(self).len_spec() == old(self).capacity_spec() ==> final(self).keys()
                == old(self).keys().drop_first().push(key_of(*layout, area)),
            !old(self).keys().contains(key_of(*layout, area)) && old(self).len_spec() < old(
                self,
            ).capacity_spec() ==> final(self).keys() == old(self).keys().push(key_of(*layout, area)),
    {
        let ghost k = key_of(*layout, area);
        let ghost old_keys = self.keys();
        match self.find(layout, area) {
            Some(i) => {
                let entry = self.entries.remove(i);
                let answer = copy_result(&entry.result);
                self.entries.push(entry);
                assert forall|j: int| 0 <= j < self.entries@.len() implies (#[trigger] self.entries@[j]).holds_solution() by {
                    if j < i {
                        assert(self.entries@[j] == old(self).entries[j]);
                    } else if j < self.entries@.len() - 1 {
                        assert(self.entries@[j] == old(self).entries[j + 1]);
                    }
                }
                let ghost last = self.entries@.len() - 1;
                assert(self.entries@[last].has_key(
                    layout.direction,
                    area,
                    layout.constraints@,
                    layout.flex,
                    layout.margin,
                ));
                assert(old_keys[i as int] == k);
                assert(self.keys() =~= old_keys.remove(i as int).push(k));
                assert forall|a: int, b: int|
                    0 <= a < self.entries@.len() && 0 <= b < self.entries@.len() && a != b implies (#[trigger] self.entries@[a]).key()
                        != (#[trigger] self.entries@[b]).key() by {
                    assert(self.keys()[a] == self.entries@[a].key());
                    assert(self.keys()[b] == self.entries@[b].key());
                    assert(old_keys[i as int] == k);
                    if a < last && b < last {
                        let oa = if a < i { a } else { a + 1 };
                        let ob = if b < i { b } else { b + 1 };
                        assert(old_keys[oa] == old(self).entries@[oa].key());
                        assert(old_keys[ob] == old(self).entries@[ob].key());
                    } else if a < last {
                        let oa = if a < i { a } else { a + 1 };
                        assert(old_keys[oa] == old(self).entries@[oa].key());
                    } else if b < last {
                        let ob = if b < i { b } else { b + 1 };
                        assert(old_keys[ob] == old(self).entries@[ob].key());
                    }
                }
                answer
            },
            None => {
                let result = solve(layout.direction, area, &layout.constraints, layout.flex, layout.margin);
                proof {
                    assert forall|j: int| 0 <= j < old_keys.len() implies old_keys[j] != k by {
                        assert(old_keys[j] == old(self).entries@[j].key());
                        assert(!old(self).entries@[j].has_key(
                            layout.direction,
                            area,
                            layout.constraints@,
                            layout.flex,
                            layout.margin,
                        ));
                    }
                    assert(!old_keys.contains(k));
                }
                if self.capacity > 0 {
                    let answer = copy_result(&result);
                    let full = self.entries.len() == self.capacity;
                    if full {
                        self.entries.remove(0);
                    }
                    let ghost kept = self.entries@;
                    let entry = CacheEntry {
                        direction: layout.direction,
                        area,
                        constraints: copy_constraints(&layout.constraints),
                        flex: layout.flex,
                        margin: layout.margin,
                        result,
                    };
                    self.entries.push(entry);
                    assert forall|j: int| 0 <= j < self.entries@.len() implies (#[trigger] self.entries@[j]).holds_solution() by {
                    }
                    let ghost last = self.entries@.len() - 1;
                    assert(self.entries@[last].has_key(
                        layout.direction,
                        area,
                        layout.constraints@,
                        layout.flex,
                        layout.margin,
                    ));
                    proof {
                        let ghost dropped: int = if full { 1 } else { 0 };
                        assert(kept =~= old(self).entries@.subrange(dropped, old(self).entries@.len() as int));
                        if full {
                            assert(self.keys() =~= old_keys.drop_first().push(k));
                        } else {
                            assert(self.keys() =~= old_keys.push(k));
                        }
                        assert forall|a: int, b: int|
                            0 <= a < self.entries@.len() && 0 <= b < self.entries@.len() && a != b implies (#[trigger] self.entries@[a]).key()
                                != (#[trigger] self.entries@[b]).key() by {
                            if a < last {
                                assert(old_keys[a + dropped] == old(self).entries@[a + dropped].key());
                            }
                            if b < last {
                                assert(old_keys[b + dropped] == old(self).entries@[b + dropped].key());
                            }
                        }
                    }
                    answer
                } else {
                    assert(self.keys() == old_keys);
                    result
                }
            },
        }
    }
}

/// Whatever a well-formed cache remembers for a key is exactly what solving
/// that key afresh yields, however many layouts were added or evicted before.
pub proof fn law_cache_agrees_with_solver(
    cache: LayoutCache,
    d: Direction,
    area: Rect,
    cs: Seq<Constraint>,
    flex: Flex,
    m: Margin,
)
    requires
        cache.wf(),
    ensures
        cache.lookup(d, area, cs, flex, m) matches Some(a) ==> a == layout_result(d, area, cs, flex, m),
{
    if exists|i: int| 0 <= i < cache.entries@.len() && (#[trigger] cache.entries@[i]).has_key(d, area, cs, flex, m) {
        let i = choose|i: int| 0 <= i < cache.entries@.len() && (#[trigger] cache.entries@[i]).has_key(d, area, cs, flex, m);
        assert(cache.entries@[i].holds_solution());
    }
}

} // verus!
