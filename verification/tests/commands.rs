use kotomori::commands::Commands;
use kotomori::component::line::LineComponent;
use kotomori::composer::Composer;
use kotomori::style::{Span, Style};

#[test]
fn the_menu_points_at_the_selected_command() {
    let mut composer = Composer::new("/");
    composer.select_next_command();
    let lines = Commands::new(&composer).lines();
    assert_eq!(
        lines,
        vec![
            LineComponent::from(vec![
                Span::raw("    "),
                Span::styled("/clear", Style::Gray),
                Span::styled("  ", Style::DarkGray),
                Span::styled("Clear the transcript", Style::DarkGray),
            ]),
            LineComponent::from(vec![
                Span::raw("  ❯ "),
                Span::styled("/quit", Style::CyanBold),
                Span::styled("  ", Style::DarkGray),
                Span::styled("Quit kotomori", Style::DarkGray),
            ]),
        ]
    );
}

#[test]
fn text_that_names_no_command_has_an_empty_menu() {
    let composer = Composer::new("hello");
    assert!(Commands::new(&composer).lines().is_empty());
}
