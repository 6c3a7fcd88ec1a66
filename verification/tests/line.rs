use kotomori::framed_lines::FramedLines;
use kotomori::line::Line;
use kotomori::style::{Span, Style};

#[test]
fn displays_raw_text() {
  assert_eq!(Line::raw("foo").to_display_string(), "foo");
}

#[test]
fn displays_styled_text() {
  assert_eq!(
    Line::from(vec![Span::styled("foo", Style::CyanBold)]).to_display_string(),
    "\x1b[36;1mfoo\x1b[0m",
  );
}

#[test]
fn renders_raw_text_at_width() {
  assert_eq!(
    Line::raw("foobar").render(3),
    [Line::raw("foo"), Line::raw("bar")]
  );
}

#[test]
fn renders_styled_text_at_width() {
  assert_eq!(
    Line::from(vec![Span::styled("foobar", Style::CyanBold)]).render(3),
    [
      Line::from(vec![Span::styled("foo", Style::CyanBold)]),
      Line::from(vec![Span::styled("bar", Style::CyanBold)]),
    ],
  );
}

#[test]
fn renders_with_minimum_width_of_one() {
  assert_eq!(
    Line::raw("foo").render(0),
    [Line::raw("f"), Line::raw("o"), Line::raw("o")]
  );
}

#[test]
fn rendering_preserves_style_boundaries() {
  assert_eq!(
    Line::from(vec![
      Span::styled("foo", Style::CyanBold),
      Span::styled("bar", Style::DarkGray),
    ])
    .render(6),
    [Line::from(vec![
      Span::styled("foo", Style::CyanBold),
      Span::styled("bar", Style::DarkGray),
    ])],
  );
}

#[test]
fn framed_lines_rendering() {
  assert_eq!(
    FramedLines::raw(vec!["foobar".to_string()]).render(3),
    [
      Line::from(vec![Span::styled("───", Style::DarkGray)]),
      Line::raw("foo"),
      Line::raw("bar"),
      Line::from(vec![Span::styled("───", Style::DarkGray)]),
    ]
  );
}

#[test]
fn plain_line_without_text_renders_as_one_empty_line() {
  assert_eq!(Line::blank().render(3), [Line::from(Vec::new())]);
}

#[test]
fn framed_plain_lines_keep_their_order() {
  assert_eq!(
    FramedLines::new(vec![Line::raw("a"), Line::raw("b")]).render(1),
    [
      Line::from(vec![Span::styled("─", Style::DarkGray)]),
      Line::raw("a"),
      Line::raw("b"),
      Line::from(vec![Span::styled("─", Style::DarkGray)]),
    ]
  );
}
