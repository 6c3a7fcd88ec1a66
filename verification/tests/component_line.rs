use kotomori::component::line::LineComponent;
use kotomori::style::{Span, Style};

#[test]
fn displays_blank_line() {
    assert_eq!(LineComponent::blank().to_display_string(), "");
}

#[test]
fn displays_mixed_styled_and_raw_text() {
    assert_eq!(
        LineComponent::from(vec![
            Span::raw("a"),
            Span::styled("b", Style::CyanBold),
            Span::raw("c"),
        ])
        .to_display_string(),
        "a\x1b[36;1mb\x1b[0mc",
    );
}

#[test]
fn line_displays_raw_text() {
    assert_eq!(LineComponent::raw("foo").to_display_string(), "foo");
}

#[test]
fn line_displays_styled_text() {
    assert_eq!(
        LineComponent::from(vec![Span::styled("foo", Style::CyanBold)]).to_display_string(),
        "\x1b[36;1mfoo\x1b[0m",
    );
}

#[test]
fn line_with_six_spans_uses_inline_smallvec_storage() {
    assert!(
        !LineComponent::from(vec![
            Span::raw("a"),
            Span::raw("b"),
            Span::raw("c"),
            Span::raw("d"),
            Span::raw("e"),
            Span::raw("f"),
        ])
        .spilled()
    );
}

#[test]
fn line_with_seven_spans_spills_to_the_heap() {
    assert!(
        LineComponent::from(vec![
            Span::raw("a"),
            Span::raw("b"),
            Span::raw("c"),
            Span::raw("d"),
            Span::raw("e"),
            Span::raw("f"),
            Span::raw("g"),
        ])
        .spilled()
    );
}

#[test]
fn few_spans_stay_inline_whatever_the_vector_reserved() {
    let mut spans = Vec::with_capacity(64);
    spans.push(Span::raw("a"));
    spans.push(Span::raw("b"));
    assert!(!LineComponent::from(spans).spilled());
    assert!(!LineComponent::blank().spilled());
}

#[test]
fn rendering_accounts_for_wide_characters() {
    assert_eq!(
        LineComponent::raw("a界b").render(3),
        [LineComponent::raw("a界"), LineComponent::raw("b")],
    );
}

#[test]
fn rendering_keeps_zero_width_combining_marks_with_line() {
    assert_eq!(
        LineComponent::raw("e\u{0301}x").render(1),
        [LineComponent::raw("e\u{0301}"), LineComponent::raw("x")],
    );
}

#[test]
fn rendering_merges_adjacent_spans_with_same_style() {
    assert_eq!(
        LineComponent::from(vec![
            Span::styled("foo", Style::CyanBold),
            Span::styled("bar", Style::CyanBold),
        ])
        .render(6),
        [LineComponent::from(vec![Span::styled("foobar", Style::CyanBold)])],
    );
}

#[test]
fn rendering_preserves_plain_text_content() {
    let line = LineComponent::from(vec![
        Span::raw("foo"),
        Span::styled("bar", Style::CyanBold),
        Span::raw("baz"),
    ]);

    let rendered_text = line
        .render(2)
        .into_iter()
        .flat_map(|line| line.into_spans())
        .map(|span| span.text)
        .collect::<String>();

    assert_eq!(rendered_text, "foobarbaz");
}

#[test]
fn line_rendering_preserves_style_boundaries() {
    assert_eq!(
        LineComponent::from(vec![
            Span::styled("foo", Style::CyanBold),
            Span::styled("bar", Style::DarkGray),
        ])
        .render(6),
        [LineComponent::from(vec![
            Span::styled("foo", Style::CyanBold),
            Span::styled("bar", Style::DarkGray),
        ])],
    );
}

#[test]
fn renders_across_style_boundaries() {
    assert_eq!(
        LineComponent::from(vec![
            Span::styled("foo", Style::CyanBold),
            Span::styled("bar", Style::DarkGray),
        ])
        .render(4),
        [
            LineComponent::from(vec![
                Span::styled("foo", Style::CyanBold),
                Span::styled("b", Style::DarkGray),
            ]),
            LineComponent::from(vec![Span::styled("ar", Style::DarkGray)]),
        ],
    );
}

#[test]
fn renders_blank_line() {
    assert_eq!(LineComponent::blank().render(3), [LineComponent::blank()]);
}

fn raw_case(width: u16, expected: &[&str]) {
    let expected = expected
        .iter()
        .copied()
        .map(LineComponent::raw)
        .collect::<Vec<_>>();

    assert_eq!(LineComponent::raw("foo").render(width), expected);
}

#[test]
fn renders_raw_text_at_various_widths() {
    raw_case(0, &["f", "o", "o"]);
    raw_case(1, &["f", "o", "o"]);
    raw_case(2, &["fo", "o"]);
    raw_case(3, &["foo"]);
    raw_case(4, &["foo"]);
}

#[test]
fn line_renders_styled_text_at_width() {
    assert_eq!(
        LineComponent::from(vec![Span::styled("foobar", Style::CyanBold)]).render(3),
        [
            LineComponent::from(vec![Span::styled("foo", Style::CyanBold)]),
            LineComponent::from(vec![Span::styled("bar", Style::CyanBold)]),
        ],
    );
}

#[test]
fn renders_styled_text_that_exactly_fits_width() {
    assert_eq!(
        LineComponent::from(vec![Span::styled("foo", Style::CyanBold)]).render(3),
        [LineComponent::from(vec![Span::styled("foo", Style::CyanBold)])],
    );
}

#[test]
fn a_wide_character_alone_overflows_a_narrow_line() {
    assert_eq!(
        LineComponent::raw("界a").render(1),
        [LineComponent::raw("界"), LineComponent::raw("a")],
    );
}

#[test]
fn prefixed_rendering_puts_the_prefix_before_each_line() {
    assert_eq!(
        LineComponent::raw("foobar").render_prefixed(3, &Span::styled("> ", Style::Muted)),
        [
            LineComponent::from(vec![Span::styled("> ", Style::Muted), Span::raw("foo")]),
            LineComponent::from(vec![Span::styled("> ", Style::Muted), Span::raw("bar")]),
        ],
    );
}

#[test]
fn blank_lines_have_no_cells() {
    assert!(LineComponent::blank().is_blank());
    assert!(LineComponent::from(vec![Span::raw(""), Span::styled("", Style::Accent)]).is_blank());
    assert!(!LineComponent::raw(" ").is_blank());
}
