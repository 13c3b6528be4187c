use std::borrow::Cow;

use termgrid::line::Line;
use termgrid::span::Span;
use termgrid::style::{Color, Modifier, Style};
use termgrid::text::Text;

fn yellow_italic() -> Style {
    Style::new().fg(Color::Yellow).add_modifier(Modifier::italic())
}

#[test]
fn raw() {
    let text = Text::raw("The first line\nThe second line");
    assert_eq!(
        text.lines,
        vec![Line::from("The first line"), Line::from("The second line")]
    );
}

#[test]
fn styled() {
    let style = yellow_italic();
    let text = Text::styled("The first line\nThe second line", style);
    assert_eq!(
        text.lines,
        vec![
            Line::from(Span::styled("The first line", style)),
            Line::from(Span::styled("The second line", style))
        ]
    );
}

#[test]
fn width() {
    let text = Text::from("The first line\nThe second line");
    assert_eq!(15, text.width());
}

#[test]
fn height() {
    let text = Text::from("The first line\nThe second line");
    assert_eq!(2, text.height());
}

#[test]
fn patch_style() {
    let style = yellow_italic();
    let style2 = Style::new().fg(Color::Red).add_modifier(Modifier::underlined());
    let mut text = Text::styled("The first line\nThe second line", style);

    text.patch_style(style2);
    let expected_style = Style::new()
        .fg(Color::Red)
        .add_modifier(Modifier::italic())
        .add_modifier(Modifier::underlined());
    assert_eq!(
        text.lines,
        vec![
            Line::from(Span::styled("The first line", expected_style)),
            Line::from(Span::styled("The second line", expected_style))
        ]
    );
}

#[test]
fn reset_style() {
    let style = yellow_italic();
    let mut text = Text::styled("The first line\nThe second line", style);

    text.reset_style();
    assert_eq!(
        text.lines,
        vec![
            Line::from(Span::styled("The first line", Style::reset())),
            Line::from(Span::styled("The second line", Style::reset()))
        ]
    );
}

#[test]
fn from_string() {
    let text = Text::from(String::from("The first line\nThe second line"));
    assert_eq!(
        text.lines,
        vec![Line::from("The first line"), Line::from("The second line")]
    );
}

#[test]
fn from_str() {
    let text = Text::from("The first line\nThe second line");
    assert_eq!(
        text.lines,
        vec![Line::from("The first line"), Line::from("The second line")]
    );
}

#[test]
fn from_cow() {
    let text = Text::from(Cow::Borrowed("The first line\nThe second line"));
    assert_eq!(
        text.lines,
        vec![Line::from("The first line"), Line::from("The second line")]
    );
}

#[test]
fn from_span() {
    let style = yellow_italic();
    let text = Text::from(Span::styled("The first line\nThe second line", style));
    assert_eq!(
        text.lines,
        vec![Line::from(Span::styled(
            "The first line\nThe second line",
            style
        ))]
    );
}

#[test]
fn from_line() {
    let text = Text::from(Line::from("The first line"));
    assert_eq!(text.lines, vec![Line::from("The first line")]);
}

#[test]
fn from_vec_line() {
    let text = Text::from(vec![
        Line::from("The first line"),
        Line::from("The second line"),
    ]);
    assert_eq!(
        text.lines,
        vec![Line::from("The first line"), Line::from("The second line")]
    );
}

#[test]
fn into_iter() {
    let text = Text::from("The first line\nThe second line");
    let mut iter = text.into_iter();
    assert_eq!(iter.next(), Some(Line::from("The first line")));
    assert_eq!(iter.next(), Some(Line::from("The second line")));
    assert_eq!(iter.next(), None);
}

#[test]
fn extend() {
    let mut text = Text::from("The first line\nThe second line");
    text.extend(vec![
        Line::from("The third line"),
        Line::from("The fourth line"),
    ]);
    assert_eq!(
        text.lines,
        vec![
            Line::from("The first line"),
            Line::from("The second line"),
            Line::from("The third line"),
            Line::from("The fourth line"),
        ]
    );
}

#[test]
fn extend_from_iter() {
    let mut text = Text::from("The first line\nThe second line");
    text.extend(vec![
        Line::from("The third line"),
        Line::from("The fourth line"),
    ]);
    assert_eq!(
        text.lines,
        vec![
            Line::from("The first line"),
            Line::from("The second line"),
            Line::from("The third line"),
            Line::from("The fourth line"),
        ]
    );
}

#[test]
fn extend_from_iter_str() {
    let mut text = Text::from("The first line\nThe second line");
    text.extend(vec!["The third line", "The fourth line"]);
    assert_eq!(
        text.lines,
        vec![
            Line::from("The first line"),
            Line::from("The second line"),
            Line::from("The third line"),
            Line::from("The fourth line"),
        ]
    );
}

#[test]
fn empty_text_has_one_empty_line() {
    let text = Text::raw("");
    assert_eq!(text.lines, vec![Line::from("")]);
    assert_eq!(1, text.height());
    assert_eq!(0, text.width());
}

#[test]
fn styled_lines_take_text_style() {
    let style = Style::new().fg(Color::Blue);
    let text = Text::raw("a\nb").style(style);
    let lines = text.styled_lines();
    assert_eq!(lines.len(), 2);
    assert!(lines.iter().all(|l| l.style == style));
}

#[test]
fn width_of_empty_text_is_zero() {
    assert_eq!(0, Text::default().width());
}

#[test]
fn trailing_carriage_return_is_kept() {
    let text = Text::raw("x\r\ny\r");
    assert_eq!(text.lines, vec![Line::from("x"), Line::from("y\r")]);
}
