use termgrid::buffer::Buffer;
use termgrid::geometry::Rect;
use termgrid::scrollbar::{Scrollbar, ScrollbarOrientation};
use termgrid::scrollbar_state::{ScrollDirection, ScrollbarState};

fn rendered(bar: Scrollbar, width: u16, height: u16, position: usize, content_length: usize) -> Vec<String> {
    let area = Rect { x: 0, y: 0, width, height };
    let mut buf = Buffer::empty(area);
    let state = ScrollbarState::default().position(position).content_length(content_length);
    bar.render(area, &mut buf, &state);
    (0..height)
        .map(|y| (0..width).map(|x| buf.get(x, y).symbol.clone()).collect::<String>())
        .collect()
}

fn plain(orientation: ScrollbarOrientation) -> Scrollbar {
    Scrollbar::default()
        .orientation(orientation)
        .begin_symbol(Some("<"))
        .end_symbol(Some(">"))
        .track_symbol(Some("-"))
        .thumb_symbol("#")
}

#[test]
fn simplest_bar() {
    let bar = || Scrollbar::default().orientation(ScrollbarOrientation::HorizontalBottom).begin_symbol(None).end_symbol(None);
    assert_eq!(rendered(bar(), 2, 1, 0, 2), vec!["█═"]);
    assert_eq!(rendered(bar(), 2, 1, 1, 2), vec!["═█"]);
}

#[test]
fn bar_without_heads() {
    let bar = || plain(ScrollbarOrientation::HorizontalTop).begin_symbol(None).end_symbol(None);
    let cases = [
        (0, "#####-----"),
        (1, "-#####----"),
        (2, "-#####----"),
        (3, "--#####---"),
        (4, "--#####---"),
        (5, "---#####--"),
        (9, "-----#####"),
        (100, "-----#####"),
    ];
    for (position, expected) in cases {
        assert_eq!(rendered(bar(), 10, 1, position, 10), vec![expected], "position {position}");
    }
    assert_eq!(rendered(bar(), 10, 1, 0, 0), vec!["          "]);
    assert_eq!(rendered(bar(), 10, 1, 0, 1), vec!["##########"]);
    assert_eq!(rendered(bar(), 10, 1, 0, 2), vec!["#########-"]);
    assert_eq!(rendered(bar(), 10, 1, 1, 2), vec!["-#########"]);
}

#[test]
fn bar_with_heads() {
    let cases = [
        (0, "<####---->"),
        (1, "<#####--->"),
        (2, "<-####--->"),
        (4, "<--####-->"),
        (6, "<---####->"),
        (8, "<---#####>"),
        (9, "<----####>"),
        (500, "<----####>"),
    ];
    for (position, expected) in cases {
        let bar = plain(ScrollbarOrientation::HorizontalTop);
        assert_eq!(rendered(bar, 10, 1, position, 10), vec![expected], "position {position}");
    }
}

#[test]
fn bar_on_each_edge() {
    let bottom = plain(ScrollbarOrientation::HorizontalBottom);
    assert_eq!(rendered(bottom, 10, 2, 0, 10), vec!["          ", "<####---->"]);
    let right = plain(ScrollbarOrientation::VerticalRight);
    let rows = rendered(right, 2, 10, 1, 10);
    let column: String = rows.iter().map(|r| r.chars().nth(1).unwrap()).collect();
    assert_eq!(column, "<#####--->");
    assert!(rows.iter().all(|r| r.starts_with(' ')));
    let left = plain(ScrollbarOrientation::VerticalLeft);
    let rows = rendered(left, 2, 10, 1, 10);
    let column: String = rows.iter().map(|r| r.chars().next().unwrap()).collect();
    assert_eq!(column, "<#####--->");
}

#[test]
fn default_symbols_follow_orientation() {
    let v = Scrollbar::new(ScrollbarOrientation::VerticalLeft);
    assert_eq!(v.track_symbol.as_deref(), Some("║"));
    assert_eq!(v.begin_symbol.as_deref(), Some("▲"));
    let h = Scrollbar::new(ScrollbarOrientation::HorizontalTop);
    assert_eq!(h.track_symbol.as_deref(), Some("═"));
    assert_eq!(h.end_symbol.as_deref(), Some("►"));
    let kept = Scrollbar::default().track_symbol(None).orientation(ScrollbarOrientation::HorizontalTop);
    assert_eq!(kept.track_symbol, None);
}

#[test]
fn part_lengths_are_rounded() {
    let bar = plain(ScrollbarOrientation::HorizontalTop);
    let area = Rect { x: 0, y: 0, width: 10, height: 1 };
    let state = ScrollbarState::new(10).position(1);
    assert_eq!(bar.track_length_excluding_arrow_heads(area), 8);
    assert_eq!(bar.viewport_length(area), 10);
    assert_eq!(bar.part_lengths(area, &state), (0, 5, 3));
}

#[test]
fn state_moves_within_bounds() {
    let mut s = ScrollbarState::new(3);
    s.prev();
    assert_eq!(s.position, 0);
    s.next();
    s.next();
    s.next();
    assert_eq!(s.position, 2);
    s.scroll(ScrollDirection::Backward);
    assert_eq!(s.position, 1);
    s.first();
    assert_eq!(s.position, 0);
    s.last();
    assert_eq!(s.position, 2);
    let mut empty = ScrollbarState::new(0);
    empty.next();
    assert_eq!(empty.position, 0);
    empty.last();
    assert_eq!(empty.position, 0);
    let mut far = ScrollbarState::new(3).position(usize::MAX);
    far.next();
    assert_eq!(far.position, 2);
    assert_eq!(ScrollDirection::default(), ScrollDirection::Forward);
}

#[test]
fn rendering_twice_changes_nothing() {
    let area = Rect { x: 0, y: 0, width: 10, height: 3 };
    let state = ScrollbarState::new(10).position(4);
    for bar in [plain(ScrollbarOrientation::VerticalRight), Scrollbar::new(ScrollbarOrientation::HorizontalBottom)] {
        let mut once = Buffer::empty(area);
        bar.render(area, &mut once, &state);
        let mut twice = once.clone();
        bar.render(area, &mut twice, &state);
        assert_eq!(once, twice);
    }
}

#[test]
fn wide_begin_symbol_is_cleared_whole() {
    let area = Rect { x: 0, y: 0, width: 6, height: 1 };
    let mut buf = Buffer::empty(area);
    let bar = plain(ScrollbarOrientation::HorizontalTop).begin_symbol(Some("日"));
    bar.render(area, &mut buf, &ScrollbarState::new(3));
    let row: Vec<String> = (0..6).map(|x| buf.get(x, 0).symbol.clone()).collect();
    assert_eq!(row[0], " ");
    assert_ne!(row[1], "");
    assert!(row.iter().all(|s| !s.is_empty()));
}

#[test]
fn empty_content_leaves_buffer_alone() {
    let mut buf = Buffer::empty(Rect { x: 0, y: 0, width: 10, height: 1 });
    let before = buf.clone();
    let far = Rect { x: 50, y: 50, width: 4, height: 4 };
    Scrollbar::default().render(far, &mut buf, &ScrollbarState::new(0));
    assert_eq!(buf, before);
}
