use ratatui::style::{Color, Style};
use wordle::config::ConsoleBackgroundColour::{Blue, Cyan, Gray, Green, Red, Reset, White, Yellow};
use wordle::config::{colour_config_from, colour_config_from_toml, colour_from_name, ConsoleBackgroundColour};

#[test]
fn colour_text_wraps_in_codes() {
    assert_eq!(Red.colour_text("5"), "\x1b[48;2;200;80;80m5\x1b[0m");
    assert_eq!(Green.colour_text(""), "\x1b[48;2;106;170;100m\x1b[0m");
    assert_eq!(Reset.colour_text("ab"), "\x1b[0mab\x1b[0m");
}

#[test]
fn as_ansi_codes() {
    assert_eq!(Yellow.as_ansi(), "\x1b[48;2;201;180;88m");
    assert_eq!(White.as_ansi(), "\x1b[48;2;220;220;220m");
}

#[test]
fn colour_names_in_any_case() {
    assert_eq!(colour_from_name("GREY"), Some(Gray));
    assert_eq!(colour_from_name("gray"), Some(Gray));
    assert_eq!(colour_from_name("Cyan"), Some(Cyan));
    assert_eq!(colour_from_name("pink"), None);
    assert_eq!(colour_from_name("reset"), None);
    assert_eq!(colour_from_name(""), None);
}

#[test]
fn colour_from_str() {
    assert_eq!("Blue".parse::<ConsoleBackgroundColour>(), Ok(Blue));
    assert_eq!(
        "pink".parse::<ConsoleBackgroundColour>(),
        Err("Unknown background colour: pink".to_string())
    );
}

#[test]
fn to_style_sets_background() {
    assert_eq!(Green.to_style(), Style::default().bg(Color::Rgb(106, 170, 100)));
    assert_eq!(Reset.to_style(), Style::default());
    assert_eq!(Blue.rgb(), Some((80, 120, 200)));
}

#[test]
fn config_from_three_names() {
    assert_eq!(colour_config_from(Some("red"), Some("BLUE"), Some("white")), [Red, Blue, White]);
    assert_eq!(colour_config_from(Some("red"), None, Some("white")), [Green, Yellow, Gray]);
    assert_eq!(colour_config_from(Some("red"), Some("pink"), Some("white")), [Green, Yellow, Gray]);
}

#[test]
fn config_from_toml_text() {
    let text = "[console.background]\nmatched = \"red\"\npresent = \"cyan\"\nabsent = \"white\"\n";
    assert_eq!(colour_config_from_toml(text), [Red, Cyan, White]);
    let partial = "[console.background]\nmatched = \"red\"\n";
    assert_eq!(colour_config_from_toml(partial), [Green, Yellow, Gray]);
    assert_eq!(colour_config_from_toml("not = [toml"), [Green, Yellow, Gray]);
    assert_eq!(colour_config_from_toml("[console]\nbackground = 3\n"), [Green, Yellow, Gray]);
}
