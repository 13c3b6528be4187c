use termgrid::cache::LayoutCache;
use termgrid::constraint::{Constraint, Flex};
use termgrid::geometry::{Direction, Rect};
use termgrid::layout::{solve, Layout, LayoutError, Margin};

const NO_MARGIN: Margin = Margin { horizontal: 0, vertical: 0 };

fn row(width: u16) -> Rect {
    Rect { x: 0, y: 0, width, height: 1 }
}

fn widths(rects: &[Rect]) -> Vec<u16> {
    rects.iter().map(|r| r.width).collect()
}

fn xs(rects: &[Rect]) -> Vec<u16> {
    rects.iter().map(|r| r.x).collect()
}

fn split(width: u16, cs: Vec<Constraint>, flex: Flex) -> Vec<Rect> {
    solve(Direction::Horizontal, row(width), &cs, flex, NO_MARGIN).unwrap()
}

#[test]
fn fixed_is_granted_before_proportional() {
    let rs = split(50, vec![Constraint::Fixed(30), Constraint::Proportional(1)], Flex::Stretch);
    assert_eq!(rs, vec![Rect { x: 0, y: 0, width: 30, height: 1 }, Rect { x: 30, y: 0, width: 20, height: 1 }]);
}

#[test]
fn fixed_overflow_is_not_reduced() {
    let rs = split(10, vec![Constraint::Fixed(15), Constraint::Proportional(1)], Flex::Stretch);
    assert_eq!(rs, vec![Rect { x: 0, y: 0, width: 15, height: 1 }, Rect { x: 15, y: 0, width: 0, height: 1 }]);
}

#[test]
fn percentages_round_to_the_container() {
    let rs = split(7, vec![Constraint::Percentage(50), Constraint::Percentage(50)], Flex::Stretch);
    assert_eq!(widths(&rs), vec![4, 3]);
    assert_eq!(xs(&rs), vec![0, 4]);
}

#[test]
fn stretch_fills_exactly() {
    let cs = vec![
        Constraint::Length(3),
        Constraint::Percentage(33),
        Constraint::Ratio(1, 7),
        Constraint::Proportional(2),
    ];
    for width in [0u16, 1, 7, 10, 33, 100, 1000] {
        let rs = split(width, cs.clone(), Flex::Stretch);
        let total: u32 = rs.iter().map(|r| r.width as u32).sum();
        assert_eq!(total, width as u32);
    }
}

#[test]
fn children_do_not_overlap() {
    let cs = vec![Constraint::Min(2), Constraint::Max(3), Constraint::Length(4), Constraint::Fixed(1)];
    for flex in [Flex::Stretch, Flex::StretchLast, Flex::Start, Flex::Center, Flex::End, Flex::SpaceAround, Flex::SpaceBetween] {
        let rs = split(20, cs.clone(), flex);
        for w in rs.windows(2) {
            assert!(w[0].x + w[0].width <= w[1].x);
        }
        let last = rs[rs.len() - 1];
        assert!(last.x + last.width <= 20);
    }
}

#[test]
fn flex_modes_place_leftover_room() {
    let cs = vec![Constraint::Length(3), Constraint::Length(2)];
    let at = |flex| {
        let rs = split(10, cs.clone(), flex);
        (xs(&rs), widths(&rs))
    };
    assert_eq!(at(Flex::Start), (vec![0, 3], vec![3, 2]));
    assert_eq!(at(Flex::End), (vec![5, 8], vec![3, 2]));
    assert_eq!(at(Flex::Center), (vec![2, 5], vec![3, 2]));
    assert_eq!(at(Flex::SpaceBetween), (vec![0, 8], vec![3, 2]));
    assert_eq!(at(Flex::SpaceAround), (vec![1, 5], vec![3, 2]));
    assert_eq!(at(Flex::Stretch), (vec![0, 5], vec![5, 5]));
    assert_eq!(at(Flex::StretchLast), (vec![0, 3], vec![3, 7]));
}

#[test]
fn max_does_not_grow_min_does() {
    let rs = split(10, vec![Constraint::Max(4), Constraint::Min(2)], Flex::Stretch);
    assert_eq!(widths(&rs), vec![4, 6]);
}

#[test]
fn ratios_and_weights() {
    let rs = split(10, vec![Constraint::Ratio(1, 3), Constraint::Ratio(2, 3)], Flex::Stretch);
    assert_eq!(widths(&rs), vec![3, 7]);
    let rs = split(10, vec![Constraint::Proportional(1), Constraint::Proportional(2)], Flex::Stretch);
    assert_eq!(widths(&rs), vec![3, 7]);
    let rs = split(10, vec![Constraint::Proportional(0), Constraint::Proportional(0)], Flex::Stretch);
    assert_eq!(widths(&rs), vec![0, 10]);
    let rs = split(10, vec![Constraint::Ratio(1, 0), Constraint::Length(2)], Flex::Start);
    assert_eq!(widths(&rs), vec![0, 2]);
}

#[test]
fn later_constraints_shrink_first() {
    let rs = split(5, vec![Constraint::Length(4), Constraint::Length(4), Constraint::Length(4)], Flex::Stretch);
    assert_eq!(widths(&rs), vec![4, 1, 0]);
}

#[test]
fn margin_and_vertical() {
    let area = Rect { x: 0, y: 0, width: 10, height: 4 };
    let layout = Layout::horizontal(vec![Constraint::Length(2), Constraint::Proportional(1)]).margin(1);
    assert_eq!(
        layout.split(area).unwrap(),
        vec![Rect { x: 1, y: 1, width: 2, height: 2 }, Rect { x: 3, y: 1, width: 6, height: 2 }]
    );
    let area = Rect { x: 0, y: 0, width: 3, height: 10 };
    let layout = Layout::vertical(vec![Constraint::Percentage(30), Constraint::Proportional(1)]);
    assert_eq!(
        layout.split(area).unwrap(),
        vec![Rect { x: 0, y: 0, width: 3, height: 3 }, Rect { x: 0, y: 3, width: 3, height: 7 }]
    );
}

#[test]
fn empty_and_zero_containers() {
    assert_eq!(split(10, vec![], Flex::Stretch), vec![]);
    let rs = split(0, vec![Constraint::Length(5), Constraint::Proportional(1)], Flex::Stretch);
    assert_eq!(rs, vec![Rect { x: 0, y: 0, width: 0, height: 1 }, Rect { x: 0, y: 0, width: 0, height: 1 }]);
    let zero = Rect { x: 4, y: 2, width: 0, height: 3 };
    let rs = solve(Direction::Horizontal, zero, &vec![Constraint::Fixed(5), Constraint::Min(1)], Flex::End, NO_MARGIN);
    assert_eq!(rs, Ok(vec![Rect { x: 4, y: 2, width: 0, height: 3 }, Rect { x: 4, y: 2, width: 0, height: 3 }]));
}

#[test]
fn errors() {
    let bad = Rect { x: 65535, y: 0, width: 1, height: 1 };
    assert_eq!(
        solve(Direction::Horizontal, bad, &vec![Constraint::Length(1)], Flex::Stretch, NO_MARGIN),
        Err(LayoutError::InvalidArea)
    );
    let edge = Rect { x: 65530, y: 0, width: 5, height: 1 };
    assert_eq!(
        solve(Direction::Horizontal, edge, &vec![Constraint::Fixed(100)], Flex::Stretch, NO_MARGIN),
        Err(LayoutError::OutOfRange)
    );
}

#[test]
fn rect_new_clips_to_coordinate_space() {
    let r = Rect::new(65530, 10, 20, 5);
    assert_eq!(r, Rect { x: 65530, y: 10, width: 5, height: 5 });
    assert_eq!(r.right(), 65535);
    assert_eq!(r.area(), 25);
}

#[test]
fn cache_matches_solver_under_eviction() {
    let mut cache = LayoutCache::new(2);
    let layouts = vec![
        Layout::horizontal(vec![Constraint::Fixed(30), Constraint::Proportional(1)]),
        Layout::vertical(vec![Constraint::Percentage(50), Constraint::Percentage(50)]).flex(Flex::Center),
        Layout::horizontal(vec![Constraint::Length(3)]).flex(Flex::End).margin(2),
    ];
    let areas = [row(50), Rect { x: 2, y: 3, width: 7, height: 7 }, Rect { x: 0, y: 0, width: 65535, height: 1 }];
    for round in 0..3 {
        for layout in &layouts {
            for area in areas {
                let cached = cache.solve_cached(layout, area);
                assert_eq!(cached, layout.split(area), "round {round}");
                assert!(cache.len() <= 2);
            }
        }
    }
    cache.clear();
    assert_eq!(cache.len(), 0);
    let mut none = LayoutCache::new(0);
    assert_eq!(none.solve_cached(&layouts[0], row(50)), layouts[0].split(row(50)));
    assert_eq!(none.len(), 0);
}

#[test]
fn cache_evicts_least_recently_used() {
    let mut cache = LayoutCache::new(2);
    let a = Layout::horizontal(vec![Constraint::Length(1)]);
    let b = Layout::horizontal(vec![Constraint::Length(2)]);
    let c = Layout::horizontal(vec![Constraint::Length(3)]);
    let area = row(10);
    cache.solve_cached(&a, area);
    cache.solve_cached(&b, area);
    cache.solve_cached(&a, area);
    cache.solve_cached(&c, area);
    assert!(cache.contains(&a, area));
    assert!(!cache.contains(&b, area));
    assert!(cache.contains(&c, area));
    assert_eq!(cache.len(), 2);
}
