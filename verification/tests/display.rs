use grok_term::chat::response::display::{
    header_color, utf8_bytes, keystrokes_for, preformat, renders_cleanly, typing_delay, wraps,
    Keystroke, MarkupState, Renderer,
};

fn render(s: &str, width: u16, color: &str) -> String {
    assert!(renders_cleanly(s, width));
    preformat(s, width, color)
}

#[test]
fn plain_word_renders_after_opening() {
    assert_eq!(render("Hello", 80, "cyan"), "\x1b[36m\n  Hello");
    assert_eq!(render("", 80, "cyan"), "\x1b[36m\n  ");
}

#[test]
fn words_join_on_a_wide_screen() {
    assert_eq!(render("Hello world", 80, "cyan"), "\x1b[36m\n  Hello world");
    assert_eq!(render("a  b", 80, "red"), "\x1b[31m\n  a b");
}

#[test]
fn narrow_screen_breaks_the_line() {
    // The opening is eight columns wide; with the word "aaa " it reaches 11.
    assert_eq!(render("aaa bbb", 12, "cyan"), "\x1b[36m\n  \n  aaa bbb");
    assert_eq!(render("aaa bbb", 13, "cyan"), "\x1b[36m\n  \n  aaa bbb");
    assert_eq!(render("aaa bbb", 14, "cyan"), "\x1b[36m\n  aaa bbb");
}

#[test]
fn line_break_flushes_and_resets() {
    assert_eq!(render("a\nb", 80, "cyan"), "\x1b[36m\n  a\n  \x1b[0mb");
}

#[test]
fn header_gets_bold_level_color() {
    assert_eq!(render("# Hi", 80, "cyan"), "\x1b[36m\n  \x1b[1m\x1b[33mHi");
    assert_eq!(render("## Hi", 80, "cyan"), "\x1b[36m\n  \x1b[1m\x1b[32mHi");
    assert_eq!(render("###### x", 80, "cyan"), "\x1b[36m\n  \x1b[1m\x1b[37mx");
}

#[test]
fn bold_and_italic_markers() {
    assert_eq!(render("**bold** x", 80, "cyan"), "\x1b[36m\n  \x1b[1mbold \x1b[0mx");
    assert_eq!(render("*it*x", 80, "cyan"), "\x1b[36m\n  \x1b[3m\x1b[0mitx");
}

#[test]
fn inline_code_is_highlighted() {
    assert_eq!(render("`x`", 80, "cyan"), "\x1b[36m\n  \x1b[32m\x1b[40mx\x1b[0m");
}

#[test]
fn deep_header_faults() {
    assert!(!renders_cleanly("####### x", 80));
    assert!(renders_cleanly("####### ", 80));
    assert!(!renders_cleanly("a b", 0));
    assert!(renders_cleanly("ab", 0));
    assert!(!renders_cleanly(&"*".repeat(256), 80));
    assert!(renders_cleanly(&"*".repeat(255), 80));
}

#[test]
fn renderer_steps_one_character() {
    let mut r = Renderer::new("green");
    r.step('a', 80, "green");
    assert_eq!(r.word, "a");
    assert_eq!(r.line, "\x1b[32m\n  ");
    assert!(r.formatted.is_empty());
    let st = MarkupState::new().next('#');
    assert_eq!(st.header_count, 1);
    assert!(st.parsing_header);
}

#[test]
fn wraps_compares_with_width_minus_one() {
    assert!(wraps(5, 5, 11));
    assert!(!wraps(5, 4, 11));
    assert!(wraps(0, 0, 1));
    assert!(wraps(usize::MAX, usize::MAX, 80));
}

#[test]
fn header_colors_by_level() {
    assert_eq!(header_color(1, "cyan"), "yellow");
    assert_eq!(header_color(4, "cyan"), "red");
    assert_eq!(header_color(6, "cyan"), "white");
    assert_eq!(header_color(0, "cyan"), "cyan");
}

fn key(bytes: &[u8], pause: bool) -> Keystroke {
    Keystroke { bytes: bytes.to_vec(), pause }
}

#[test]
fn escape_sequences_type_without_pause() {
    let keys = keystrokes_for("\x1b[1mHi");
    let expected = vec![
        key(&[27], false),
        key(b"[", false),
        key(b"1", false),
        key(b"m", false),
        key(b"H", true),
        key(b"i", true),
    ];
    assert_eq!(keys, expected);
}

#[test]
fn characters_are_written_as_utf8() {
    assert_eq!(utf8_bytes('a'), vec![0x61]);
    assert_eq!(utf8_bytes('\u{e9}'), vec![0xc3, 0xa9]);
    assert_eq!(utf8_bytes('\u{20ac}'), vec![0xe2, 0x82, 0xac]);
    assert_eq!(utf8_bytes('\u{1f600}'), vec![0xf0, 0x9f, 0x98, 0x80]);
    // U+011B is not an escape character, whatever its low byte.
    let keys = keystrokes_for("\u{11b}a");
    assert_eq!(keys, vec![key(&[0xc4, 0x9b], true), key(b"a", true)]);
}

#[test]
fn typed_reply_is_the_utf8_of_the_rendering() {
    let formatted = preformat("\u{e9}", 80, "cyan");
    let written: Vec<u8> = keystrokes_for(&formatted).into_iter().flat_map(|k| k.bytes).collect();
    assert_eq!(written, b"\x1b[36m\n  \xc3\xa9".to_vec());
    assert_eq!(written, formatted.as_bytes().to_vec());
}

#[test]
fn typing_delay_is_constant() {
    assert_eq!(typing_delay("short"), 25);
    assert_eq!(typing_delay(&"x".repeat(300)), 25);
}
