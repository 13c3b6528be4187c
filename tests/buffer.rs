use termgrid::buffer::{Buffer, Cell};
use termgrid::geometry::Rect;
use termgrid::style::{Color, Style};

fn area(width: u16, height: u16) -> Rect {
    Rect { x: 0, y: 0, width, height }
}

fn row_text(buf: &Buffer, y: u16) -> Vec<String> {
    (buf.area.x..buf.area.x + buf.area.width).map(|x| buf.get(x, y).symbol.clone()).collect()
}

#[test]
fn empty_buffer_is_blank() {
    let buf = Buffer::empty(area(3, 2));
    assert_eq!(buf.content.len(), 6);
    assert!(buf.content.iter().all(|c| *c == Cell::blank()));
}

#[test]
fn set_string_writes_and_clips() {
    let mut buf = Buffer::empty(area(3, 1));
    buf.set_string(0, 0, "abcd", Style::new().fg(Color::Red));
    assert_eq!(row_text(&buf, 0), vec!["a", "b", "c"]);
    assert_eq!(buf.get(0, 0).fg, Color::Red);
    assert_eq!(buf.get(0, 0).bg, Color::Reset);
}

#[test]
fn wide_grapheme_takes_two_cells() {
    let mut buf = Buffer::empty(area(3, 1));
    buf.set_string(0, 0, "日", Style::new());
    assert_eq!(row_text(&buf, 0), vec!["日", "", " "]);
}

#[test]
fn wide_then_narrow_leaves_no_half() {
    let mut buf = Buffer::empty(area(4, 1));
    buf.set_string(0, 0, "日", Style::new());
    buf.set_string(1, 0, "x", Style::new());
    assert_eq!(row_text(&buf, 0), vec![" ", "x", " ", " "]);
}

#[test]
fn overwriting_wide_head_clears_continuation() {
    let mut buf = Buffer::empty(area(3, 1));
    buf.set_string(0, 0, "日", Style::new());
    buf.set_string(0, 0, "y", Style::new());
    assert_eq!(row_text(&buf, 0), vec!["y", " ", " "]);
}

#[test]
fn wide_grapheme_that_does_not_fit_is_dropped() {
    let mut buf = Buffer::empty(area(3, 1));
    buf.set_string(1, 0, "a日", Style::new());
    assert_eq!(row_text(&buf, 0), vec![" ", "a", " "]);
}

#[test]
fn merge_clips_to_destination() {
    let mut dst = Buffer::empty(area(3, 3));
    let other = Buffer::filled(area(4, 4), &Cell::new("x"));
    dst.merge(&other, 1, 1);
    assert_eq!(dst.content.len(), 9);
    assert_eq!(row_text(&dst, 0), vec![" ", " ", " "]);
    assert_eq!(row_text(&dst, 1), vec![" ", "x", "x"]);
    assert_eq!(row_text(&dst, 2), vec![" ", "x", "x"]);
}

#[test]
fn resize_keeps_overlap() {
    let mut buf = Buffer::empty(area(2, 1));
    buf.set_string(0, 0, "ab", Style::new());
    buf.resize(area(3, 2));
    assert_eq!(row_text(&buf, 0), vec!["a", "b", " "]);
    assert_eq!(row_text(&buf, 1), vec![" ", " ", " "]);
    buf.resize(area(1, 1));
    assert_eq!(row_text(&buf, 0), vec!["a"]);
}

#[test]
fn diff_round_trip() {
    let a = Buffer::empty(area(3, 2));
    let mut b = Buffer::empty(area(3, 2));
    b.set_string(1, 1, "ab", Style::new().bg(Color::Blue));
    let d = b.diff(&a);
    assert_eq!(d.len(), 2);
    assert_eq!((d[0].0, d[0].1, d[0].2.symbol.as_str()), (1, 1, "a"));
    assert_eq!((d[1].0, d[1].1, d[1].2.symbol.as_str()), (2, 1, "b"));
    let mut c = a.clone();
    c.apply_updates(&d);
    assert_eq!(c, b);
    assert!(a.diff(&a).is_empty());
}

#[test]
fn get_mut_writes_one_cell() {
    let mut buf = Buffer::empty(Rect { x: 5, y: 5, width: 2, height: 2 });
    buf.get_mut(6, 6).symbol = "z".to_string();
    assert_eq!(buf.index_of(6, 6), 3);
    assert_eq!(buf.content[3].symbol, "z");
    assert_eq!(buf.pos_of(3), (6, 6));
}

#[test]
fn merge_over_wide_head_blanks_its_continuation() {
    let mut dst = Buffer::empty(area(3, 1));
    dst.set_string(1, 0, "日", Style::new());
    let other = Buffer::filled(area(1, 1), &Cell::new("x"));
    dst.merge(&other, 1, 0);
    assert_eq!(row_text(&dst, 0), vec![" ", "x", " "]);
}

#[test]
fn resize_cutting_wide_grapheme_blanks_it() {
    let mut buf = Buffer::empty(area(3, 1));
    buf.set_string(1, 0, "日", Style::new());
    buf.resize(area(2, 1));
    assert_eq!(row_text(&buf, 0), vec![" ", " "]);
}

#[test]
fn repair_keeps_whole_wide_graphemes() {
    let mut buf = Buffer::empty(area(4, 1));
    buf.set_string(0, 0, "日x", Style::new());
    let before = buf.clone();
    buf.repair_wide();
    assert_eq!(buf, before);
    assert_eq!(row_text(&buf, 0), vec!["日", "", "x", " "]);
}
