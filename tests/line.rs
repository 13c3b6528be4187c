use termgrid::line::{Alignment, Line};
use termgrid::span::{Span, StyledGrapheme};
use termgrid::style::{Color, Modifier, Style};

#[test]
fn test_width() {
    let line = Line::from(vec![
        Span::styled("My", Style::default().fg(Color::Yellow)),
        Span::raw(" text"),
    ]);
    assert_eq!(7, line.width());

    let empty_line = Line::default();
    assert_eq!(0, empty_line.width());
}

#[test]
fn test_patch_style() {
    let style = Style::default()
        .fg(Color::Yellow)
        .add_modifier(Modifier::italic());
    let mut raw_line = Line::from(vec![Span::raw("My"), Span::raw(" text")]);
    let styled_line = Line::from(vec![
        Span::styled("My", style),
        Span::styled(" text", style),
    ]);

    assert_ne!(raw_line, styled_line);

    raw_line.patch_style(style);
    assert_eq!(raw_line, styled_line);
}

#[test]
fn test_reset_style() {
    let mut line = Line::from(vec![
        Span::styled("My", Style::default().fg(Color::Yellow)),
        Span::styled(" text", Style::default().add_modifier(Modifier::bold())),
    ]);

    line.reset_style();
    assert_eq!(Style::reset(), line.spans[0].style);
    assert_eq!(Style::reset(), line.spans[1].style);
}

#[test]
fn test_from_string() {
    let s = String::from("Hello, world!");
    let line = Line::from(s);
    assert_eq!(vec![Span::from("Hello, world!")], line.spans);
}

#[test]
fn test_from_str() {
    let s = "Hello, world!";
    let line = Line::from(s);
    assert_eq!(vec![Span::from("Hello, world!")], line.spans);
}

#[test]
fn test_from_vec() {
    let spans = vec![
        Span::styled("Hello,", Style::default().fg(Color::Red)),
        Span::styled(" world!", Style::default().fg(Color::Green)),
    ];
    let line = Line::from(spans.clone());
    assert_eq!(spans, line.spans);
}

#[test]
fn test_from_span() {
    let span = Span::styled("Hello, world!", Style::default().fg(Color::Yellow));
    let line = Line::from(span.clone());
    assert_eq!(vec![span], line.spans);
}

#[test]
fn test_into_string() {
    let line = Line::from(vec![
        Span::styled("Hello,", Style::default().fg(Color::Red)),
        Span::styled(" world!", Style::default().fg(Color::Green)),
    ]);
    let s: String = line.into();
    assert_eq!("Hello, world!", s);
}

#[test]
fn test_alignment() {
    let line = Line::from("This is left").alignment(Alignment::Left);
    assert_eq!(Some(Alignment::Left), line.alignment);

    let line = Line::from("This is default");
    assert_eq!(None, line.alignment);
}

#[test]
fn styled_graphemes() {
    let red = Style::new().fg(Color::Red);
    let green = Style::new().fg(Color::Green);
    let blue = Style::new().fg(Color::Blue);
    let red_on_white = Style::new().fg(Color::Red).bg(Color::White);
    let green_on_white = Style::new().fg(Color::Green).bg(Color::White);
    let blue_on_white = Style::new().fg(Color::Blue).bg(Color::White);

    let line = Line::from(vec![
        Span::styled("He", red),
        Span::styled("ll", green),
        Span::styled("o!", blue),
    ]);
    let styled_graphemes = line.styled_graphemes(Style::new().bg(Color::White));
    assert_eq!(
        styled_graphemes,
        vec![
            StyledGrapheme::new("H", red_on_white),
            StyledGrapheme::new("e", red_on_white),
            StyledGrapheme::new("l", green_on_white),
            StyledGrapheme::new("l", green_on_white),
            StyledGrapheme::new("o", blue_on_white),
            StyledGrapheme::new("!", blue_on_white),
        ],
    );
}

#[test]
fn raw_str() {
    let line = Line::raw("test content");
    assert_eq!(line.spans, vec![Span::raw("test content")]);
    assert_eq!(line.alignment, None);

    let line = Line::raw("a\nb");
    assert_eq!(line.spans, vec![Span::raw("a"), Span::raw("b")]);
    assert_eq!(line.alignment, None);
}

#[test]
fn raw_splits_like_lines() {
    let line = Line::raw("a\r\nb\n\nc\n");
    assert_eq!(
        line.spans,
        vec![Span::raw("a"), Span::raw("b"), Span::raw(""), Span::raw("c")]
    );
    assert!(Line::raw("").spans.is_empty());
    assert_eq!(Line::raw("a\r").spans, vec![Span::raw("a\r")]);
    assert_eq!(Line::raw("a\r\nb\r").spans, vec![Span::raw("a"), Span::raw("b\r")]);
}

#[test]
fn styled_line_keeps_span_styles_plain() {
    let style = Style::new().fg(Color::Red);
    let line = Line::styled("x\ny", style);
    assert_eq!(line.style, style);
    assert_eq!(line.spans, vec![Span::raw("x"), Span::raw("y")]);
}

#[test]
fn width_counts_wide_characters() {
    let line = Line::from(vec![Span::raw("日本"), Span::raw("a")]);
    assert_eq!(5, line.width());
}

#[test]
fn styled_spans_take_line_style() {
    let style = Style::new().fg(Color::Cyan);
    let line = Line::from(vec![Span::styled("a", Style::new().fg(Color::Red)), Span::raw("b")])
        .style(style);
    assert_eq!(
        line.styled_spans(),
        vec![Span::styled("a", style), Span::styled("b", style)]
    );
}

#[test]
fn styled_graphemes_skip_line_breaks_and_split_clusters() {
    let line = Line::from(vec![Span::raw("a\ne\u{301}")]);
    let gs = line.styled_graphemes(Style::new());
    assert_eq!(
        gs,
        vec![
            StyledGrapheme::new("a", Style::new()),
            StyledGrapheme::new("e\u{301}", Style::new()),
        ]
    );
}

#[test]
fn patch_style_merges_modifiers() {
    let base = Style::new().fg(Color::Yellow).add_modifier(Modifier::italic());
    let over = Style::new().fg(Color::Red).add_modifier(Modifier::underlined());
    let expected = Style::new()
        .fg(Color::Red)
        .add_modifier(Modifier::italic())
        .add_modifier(Modifier::underlined());
    assert_eq!(base.patch(over), expected);
    let removed = base.patch(Style::new().remove_modifier(Modifier::italic()));
    assert_eq!(removed.add_modifier.bits, 0);
    assert_eq!(removed.sub_modifier.bits, Modifier::italic().bits);
}

#[test]
fn patching_with_empty_style_changes_nothing() {
    let odd = Style::new().add_modifier(Modifier { bits: 0x0200 });
    let mut line = Line::from(vec![Span::styled("a", odd), Span::raw("b")]);
    let before = line.clone();
    line.patch_style(Style::default());
    assert_eq!(line, before);
}
