use kotomori::component::footer::FooterComponent;
use kotomori::component::header::{HeaderComponent, HintComponent};
use kotomori::component::line::LineComponent;
use kotomori::footer::Footer;
use kotomori::header::Header;
use kotomori::hint::Hint;
use kotomori::line::Line;
use kotomori::model::Model;
use kotomori::style::{Span, Style};
use std::time::Duration;

#[test]
fn rendering_first_draw_duration() {
    assert_eq!(
        HeaderComponent::new(Some(Duration::from_millis(42))).render(80),
        [LineComponent::from(vec![
            Span::styled("kotomori", Style::Accent),
            Span::raw("  "),
            Span::styled("0.1.0", Style::Muted),
            Span::styled(" · ", Style::Muted),
            Span::styled("first draw 42ms", Style::Muted),
        ])],
    );
}

#[test]
fn header_without_first_draw_shows_name_and_version() {
    assert_eq!(
        HeaderComponent::new(None).render(3),
        [LineComponent::from(vec![
            Span::styled("kotomori", Style::Accent),
            Span::raw("  "),
            Span::styled("0.1.0", Style::Muted),
        ])],
    );
}

#[test]
fn first_draw_counts_whole_milliseconds() {
    assert_eq!(
        HeaderComponent::new(Some(Duration::from_micros(1999))).render(80)[0].to_display_string(),
        "\x1b[36mkotomori\x1b[0m  \x1b[90m0.1.0\x1b[0m\x1b[90m · \x1b[0m\x1b[90mfirst draw 1ms\x1b[0m",
    );
}

#[test]
fn hint_tells_how_to_quit() {
    assert_eq!(
        HintComponent.render(80),
        [LineComponent::from(vec![
            Span::styled("Type a prompt. Press ", Style::Muted),
            Span::styled("Ctrl-C", Style::Secondary),
            Span::styled(" to quit.", Style::Muted),
        ])],
    );
}

#[test]
fn footer_rendering() {
    assert_eq!(
        FooterComponent::new(&Model::new("foo", "bar").unwrap(), "baz").render(80),
        [LineComponent::from(vec![Span::styled("foo · bar · baz", Style::DarkGray)])]
    );
}

#[test]
fn footer_shows_the_given_directory() {
    assert_eq!(
        FooterComponent::new(&Model::new("foo", "bar").unwrap(), "/home/me")
            .render_shown("~"),
        [LineComponent::from(vec![Span::styled("foo · bar · ~", Style::DarkGray)])]
    );
}

#[test]
fn plain_header_and_hint() {
    assert_eq!(
        Header.render(80),
        [Line::from(vec![
            Span::styled("kotomori", Style::CyanBold),
            Span::raw("  "),
            Span::styled("0.1.0", Style::DarkGray),
        ])],
    );
    assert_eq!(
        Hint.render(80),
        [Line::from(vec![
            Span::styled("Type a prompt. Press ", Style::DarkGray),
            Span::styled("Ctrl-C", Style::Gray),
            Span::styled(" to quit.", Style::DarkGray),
        ])],
    );
}

#[test]
fn plain_footer_is_dark_gray() {
    assert_eq!(
        Footer::raw("foo").render(3),
        [Line::from(vec![Span::styled("foo", Style::DarkGray)])],
    );
}

#[test]
fn plain_footer_for_a_model_writes_home_as_tilde() {
    let model = Model::new("foo", "bar").unwrap();
    assert_eq!(
        Footer::for_model(&model, "/home/me/src", Some("/home/me")).render(80),
        [Line::from(vec![Span::styled("foo · bar · ~/src", Style::DarkGray)])],
    );
    assert_eq!(
        Footer::for_model(&model, "/home/me", Some("/home/me")).render(80),
        [Line::from(vec![Span::styled("foo · bar · ~", Style::DarkGray)])],
    );
    assert_eq!(
        Footer::for_model(&model, "/tmp", Some("/home/me")).render(80),
        [Line::from(vec![Span::styled("foo · bar · /tmp", Style::DarkGray)])],
    );
    assert_eq!(
        Footer::for_model(&model, "/tmp", None).render(80),
        [Line::from(vec![Span::styled("foo · bar · /tmp", Style::DarkGray)])],
    );
}
