use grok_term::chat::text_tools::color_strings::{ansi_code, Color, FormattedText, TextStyle};

#[test]
fn ansi_code_foreground_colors() {
    assert_eq!(ansi_code("black"), "\x1b[30m");
    assert_eq!(ansi_code("red"), "\x1b[31m");
    assert_eq!(ansi_code("green"), "\x1b[32m");
    assert_eq!(ansi_code("yellow"), "\x1b[33m");
    assert_eq!(ansi_code("blue"), "\x1b[34m");
    assert_eq!(ansi_code("magenta"), "\x1b[35m");
    assert_eq!(ansi_code("cyan"), "\x1b[36m");
    assert_eq!(ansi_code("white"), "\x1b[37m");
}

#[test]
fn ansi_code_background_colors() {
    assert_eq!(ansi_code("!black"), "\x1b[40m");
    assert_eq!(ansi_code("!red"), "\x1b[41m");
    assert_eq!(ansi_code("!green"), "\x1b[42m");
    assert_eq!(ansi_code("!yellow"), "\x1b[43m");
    assert_eq!(ansi_code("!blue"), "\x1b[44m");
    assert_eq!(ansi_code("!magenta"), "\x1b[45m");
    assert_eq!(ansi_code("!cyan"), "\x1b[46m");
    assert_eq!(ansi_code("!white"), "\x1b[47m");
}

#[test]
fn ansi_code_styles_and_reset() {
    assert_eq!(ansi_code("bold"), "\x1b[1m");
    assert_eq!(ansi_code("italic"), "\x1b[3m");
    assert_eq!(ansi_code("underline"), "\x1b[4m");
    assert_eq!(ansi_code(""), "\x1b[0m");
    assert_eq!(ansi_code("purple"), "\x1b[0m");
    assert_eq!(ansi_code("Red"), "\x1b[0m");
    assert_eq!(ansi_code("none"), "\x1b[0m");
}

#[test]
fn formatted_text_new_ignores_case() {
    let t = FormattedText::new("ReD", String::from("hello"));
    assert_eq!(t.color, Color::Red);
    assert_eq!(t.text, "hello");
    assert_eq!(FormattedText::new("CYAN", String::new()).color, Color::Cyan);
    assert_eq!(FormattedText::new("black", String::new()).color, Color::Black);
    assert_eq!(FormattedText::new("Green", String::new()).color, Color::Green);
    assert_eq!(FormattedText::new("yellow", String::new()).color, Color::Yellow);
    assert_eq!(FormattedText::new("BLUE", String::new()).color, Color::Blue);
    assert_eq!(FormattedText::new("magenta", String::new()).color, Color::Magenta);
}

#[test]
fn formatted_text_new_none_and_unknown() {
    assert_eq!(FormattedText::new("None", String::new()).color, Color::NoCol);
    assert_eq!(FormattedText::new("white", String::new()).color, Color::White);
    assert_eq!(FormattedText::new("orange", String::new()).color, Color::White);
    assert_eq!(FormattedText::new("", String::new()).color, Color::White);
}

#[test]
fn formatted_text_new_uses_unicode_lowercase() {
    // KELVIN SIGN lowercases to an ASCII `k`.
    assert_eq!(FormattedText::new("BLAC\u{212A}", String::new()).color, Color::Black);
}

#[test]
fn color_from_lowercase_name_is_exact() {
    assert_eq!(Color::from_lowercase_name("red"), Color::Red);
    assert_eq!(Color::from_lowercase_name("Red"), Color::White);
    assert_eq!(Color::from_lowercase_name("none"), Color::NoCol);
}

#[test]
fn dye_wraps_text_in_codes() {
    let t = FormattedText::new("blue", String::from("sky"));
    assert_eq!(t.dye("blue"), "\x1b[34msky\x1b[0m");
    assert_eq!(t.dye("bold"), "\x1b[1msky\x1b[0m");
    assert_eq!(t.dye("unknown"), "\x1b[0msky\x1b[0m");
    let empty = FormattedText::new("red", String::new());
    assert_eq!(empty.dye("!red"), "\x1b[41m\x1b[0m");
}

#[test]
fn text_style_variants_exist() {
    let styles = [TextStyle::Plain, TextStyle::Bold, TextStyle::Italic, TextStyle::Underline];
    assert_eq!(styles.len(), 4);
}
