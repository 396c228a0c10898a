//! Rendering of a markdown reply for a terminal: headers, emphasis and code
//! become ANSI escape sequences and lines are wrapped at the screen width.
use unicode_width::UnicodeWidthStr;
use vstd::prelude::*;
use vstd::string::StringExecFns;

use crate::chat::text_tools::color_strings::{ansi_code, ansi_code_of};
use crate::chat::text_tools::{push_char, str_equals};

verus! {

/// The number of terminal columns that `UnicodeWidthStr::width` gives a
/// string; a function of its characters alone.
pub uninterp spec fn display_width(s: Seq<char>) -> usize;

/// Calls `UnicodeWidthStr::width` of the `unicode-width` crate. The contract
/// claims only that the result is `display_width` of the string's characters;
/// the column count of each character is left unsaid.
#[verifier::external_body]
fn str_width(s: &str) -> (width: usize)
    ensures
        width == display_width(s@),
{
    UnicodeWidthStr::width(s)
}

/// What the renderer remembers of the markup read so far.
#[derive(Clone, Copy)]
pub struct MarkupState {
    pub last_char: char,
    pub header_count: u8,
    pub parsing_header: bool,
    pub in_code_block: bool,
    pub writing_code: bool,
    pub back_ticks: u8,
    pub multi_line_code: bool,
    pub bold: bool,
    pub italic: bool,
    pub asterisks: u8,
}

/// The renderer's state, seen as sequences of characters: the finished
/// output, the line being filled and the word being read.
pub struct RenderState {
    pub markup: MarkupState,
    pub formatted: Seq<char>,
    pub line: Seq<char>,
    pub word: Seq<char>,
}

pub open spec fn initial_markup() -> MarkupState {
    MarkupState {
        last_char: 'A',
        header_count: 0,
        parsing_header: false,
        in_code_block: false,
        writing_code: false,
        back_ticks: 0,
        multi_line_code: false,
        bold: false,
        italic: false,
        asterisks: 0,
    }
}

/// The sequence that starts a new indented line.
pub open spec fn newline_seq() -> Seq<char> {
    "\n  "@
}

/// The sequence that ends every colour and style.
pub open spec fn reset_seq() -> Seq<char> {
    ansi_code_of(""@)
}

/// Whether a word no longer fits on the line: the two widths together reach
/// one column less than the screen width.
pub open spec fn line_overflows(line_width: int, word_width: int, screen_width: u16) -> bool {
    line_width + word_width >= screen_width - 1
}

/// The colour name of a header of the given level (the number of `#`).
pub open spec fn header_color_name(level: u8, default_color: Seq<char>) -> Seq<char> {
    if level == 1 {
        "yellow"@
    } else if level == 2 {
        "green"@
    } else if level == 3 {
        "blue"@
    } else if level == 4 {
        "red"@
    } else if level == 5 {
        "magenta"@
    } else if level == 6 {
        "white"@
    } else {
        default_color
    }
}

/// Where rendering the next character would fail: at a space or a line break
/// on a screen of width 0, at the 256th `#` counted without a header being
/// emitted, at a header deeper than level 6, and at the 256th `*` in a row.
pub open spec fn markup_faults(st: MarkupState, c: char, screen_width: u16) -> bool {
    if c == ' ' || c == '\n' {
        screen_width == 0
    } else if c == '#' && !st.in_code_block {
        st.header_count == 255
    } else {
        (st.parsing_header && st.header_count > 6) || (c == '*' && st.asterisks == 255)
    }
}

/// The code-block flags after a character that is not a space, a line break
/// or a header mark: `(in_code_block, writing_code, back_ticks)`.
pub open spec fn code_step(st: MarkupState, c: char) -> (bool, bool, u8) {
    if c == '`' && !st.in_code_block && !st.writing_code {
        (true, st.writing_code, st.back_ticks)
    } else if c == '`' && st.last_char == '`' {
        (st.in_code_block, st.writing_code, (st.back_ticks + 1) as u8)
    } else if st.in_code_block && !st.writing_code {
        (st.in_code_block, true, st.back_ticks)
    } else if c == '`' && st.writing_code && !st.multi_line_code {
        (false, false, st.back_ticks)
    } else {
        (st.in_code_block, st.writing_code, st.back_ticks)
    }
}

/// The emphasis flags `(italic, bold)` once a run of `asterisks` stars ends.
pub open spec fn emphasis_step(asterisks: u8, italic: bool, bold: bool) -> (bool, bool) {
    if asterisks == 1 && !italic {
        (true, bold)
    } else if asterisks == 2 && !bold {
        (italic, true)
    } else if asterisks == 1 && italic {
        (false, bold)
    } else if asterisks == 2 && bold {
        (italic, false)
    } else {
        (italic, bold)
    }
}

/// The sequences that a run of `asterisks` stars adds to the line when it ends.
pub open spec fn emphasis_text(asterisks: u8, italic: bool, bold: bool) -> Seq<char> {
    if asterisks == 1 && !italic {
        ansi_code_of("italic"@)
    } else if asterisks == 2 && !bold {
        ansi_code_of("bold"@)
    } else if asterisks == 1 && italic {
        reset_seq() + if bold {
            ansi_code_of("bold"@)
        } else {
            Seq::empty()
        }
    } else if asterisks == 2 && bold {
        reset_seq() + if italic {
            ansi_code_of("italic"@)
        } else {
            Seq::empty()
        }
    } else {
        Seq::empty()
    }
}

/// The word after the code-block marks of character `c` are added to it.
pub open spec fn code_text(st: MarkupState, c: char, word: Seq<char>) -> Seq<char> {
    if c == '`' && !st.in_code_block && !st.writing_code {
        word + ansi_code_of("green"@) + ansi_code_of("!black"@)
    } else if c == '`' && st.last_char == '`' {
        word
    } else if st.in_code_block && !st.writing_code {
        word
    } else if c == '`' && st.writing_code {
        if !st.multi_line_code {
            word + reset_seq()
        } else {
            word + newline_seq()
        }
    } else {
        word
    }
}

/// The word after a second back tick in a row opens or closes a multi-line
/// code block (`multi_line_code` is the flag before the toggle).
pub open spec fn fence_text(word: Seq<char>, back_ticks: u8, multi_line_code: bool) -> Seq<char> {
    if back_ticks == 2 {
        if multi_line_code {
            word + reset_seq() + newline_seq()
        } else {
            word + newline_seq()
        }
    } else {
        word
    }
}

/// The markup state after character `c`.
pub open spec fn markup_step(st: MarkupState, c: char) -> MarkupState {
    if c == ' ' {
        MarkupState { last_char: c, ..st }
    } else if c == '\n' {
        MarkupState { last_char: c, parsing_header: false, ..st }
    } else if c == '#' && !st.in_code_block {
        MarkupState { header_count: (st.header_count + 1) as u8, parsing_header: true, ..st }
    } else {
        let header_count = if st.parsing_header && st.header_count > 0 {
            0u8
        } else {
            st.header_count
        };
        let (in_code_block, writing_code, back_ticks) = code_step(st, c);
        if c == '*' && !in_code_block {
            MarkupState {
                header_count,
                in_code_block,
                writing_code,
                back_ticks,
                asterisks: (st.asterisks + 1) as u8,
                ..st
            }
        } else {
            let (italic, bold) = if c == '*' {
                (st.italic, st.bold)
            } else {
                emphasis_step(st.asterisks, st.italic, st.bold)
            };
            let asterisks = if c == '*' {
                (st.asterisks + 1) as u8
            } else {
                0u8
            };
            MarkupState {
                last_char: c,
                header_count,
                parsing_header: st.parsing_header,
                in_code_block,
                writing_code,
                back_ticks: if back_ticks == 2 {
                    0u8
                } else {
                    back_ticks
                },
                multi_line_code: if back_ticks == 2 {
                    !st.multi_line_code
                } else {
                    st.multi_line_code
                },
                bold,
                italic,
                asterisks,
            }
        }
    }
}

/// The renderer's state after character `c`, on a screen `screen_width`
/// columns wide, with `default_color` for plain text.
pub open spec fn render_step(
    r: RenderState,
    c: char,
    screen_width: u16,
    default_color: Seq<char>,
) -> RenderState {
    let st = r.markup;
    let next = markup_step(st, c);
    if c == ' ' {
        let word = r.word.push(' ');
        let wrap = line_overflows(
            display_width(r.line) as int,
            display_width(word) as int,
            screen_width,
        );
        let formatted = if wrap {
            r.formatted + r.line + newline_seq()
        } else {
            r.formatted
        };
        let line = if wrap {
            Seq::empty()
        } else {
            r.line
        };
        let line = if word != " "@ {
            line + word
        } else {
            line
        };
        RenderState { markup: next, formatted, line, word: Seq::empty() }
    } else if c == '\n' {
        let wrap = line_overflows(
            display_width(r.line) as int,
            display_width(r.word) as int,
            screen_width,
        );
        let line = if wrap {
            r.line + newline_seq()
        } else {
            r.line
        };
        let formatted = r.formatted + line + r.word + newline_seq();
        let line = if st.parsing_header || !st.writing_code {
            reset_seq()
        } else {
            Seq::empty()
        };
        RenderState { markup: next, formatted, line, word: Seq::empty() }
    } else if c == '#' && !st.in_code_block {
        RenderState { markup: next, ..r }
    } else {
        let line = if st.parsing_header && st.header_count > 0 {
            r.line + ansi_code_of("bold"@) + ansi_code_of(
                header_color_name(st.header_count, default_color),
            )
        } else {
            r.line
        };
        let word = code_text(st, c, r.word);
        let (in_code_block, writing_code, back_ticks) = code_step(st, c);
        if c == '*' {
            let line = if st.asterisks + 1 == 3 && (st.bold || st.italic) {
                line + reset_seq()
            } else {
                line
            };
            if !in_code_block {
                RenderState { markup: next, formatted: r.formatted, line, word }
            } else {
                RenderState {
                    markup: next,
                    formatted: r.formatted,
                    line,
                    word: fence_text(word.push(c), back_ticks, st.multi_line_code),
                }
            }
        } else {
            let line = line + emphasis_text(st.asterisks, st.italic, st.bold);
            let word = if c != '`' {
                word.push(c)
            } else {
                word
            };
            RenderState {
                markup: next,
                formatted: r.formatted,
                line,
                word: fence_text(word, back_ticks, st.multi_line_code),
            }
        }
    }
}

/// The markup state after the characters of `s`.
pub open spec fn markup_after(s: Seq<char>) -> MarkupState
    decreases s.len(),
{
    if s.len() == 0 {
        initial_markup()
    } else {
        markup_step(markup_after(s.drop_last()), s.last())
    }
}

/// Whether `s` renders on a screen of the given width without a failure.
pub open spec fn renders_without_fault(s: Seq<char>, screen_width: u16) -> bool {
    forall|i: int|
        0 <= i < s.len() ==> !markup_faults(#[trigger] markup_after(s.take(i)), s[i], screen_width)
}

/// The renderer's state before any character: the line starts with the
/// default colour and a line break.
pub open spec fn initial_render(default_color: Seq<char>) -> RenderState {
    RenderState {
        markup: initial_markup(),
        formatted: Seq::empty(),
        line: ansi_code_of(default_color) + newline_seq(),
        word: Seq::empty(),
    }
}

/// The renderer's state after the characters of `s`.
pub open spec fn render_after(s: Seq<char>, screen_width: u16, default_color: Seq<char>) -> RenderState
    decreases s.len(),
{
    if s.len() == 0 {
        initial_render(default_color)
    } else {
        render_step(
            render_after(s.drop_last(), screen_width, default_color),
            s.last(),
            screen_width,
            default_color,
        )
    }
}

/// The text that rendering `s` produces: the finished output followed by
/// what remains of the last line and word.
pub open spec fn rendered(s: Seq<char>, screen_width: u16, default_color: Seq<char>) -> Seq<char> {
    let r = render_after(s, screen_width, default_color);
    r.formatted + r.line + r.word
}

impl MarkupState {
    /// The state before the first character.
    pub fn new() -> (st: MarkupState)
        ensures
            st == initial_markup(),
    {
        MarkupState {
            last_char: 'A',
            header_count: 0,
            parsing_header: false,
            in_code_block: false,
            writing_code: false,
            back_ticks: 0,
            multi_line_code: false,
            bold: false,
            italic: false,
            asterisks: 0,
        }
    }

    /// The markup state after character `c`.
    pub fn next(&self, c: char) -> (next: MarkupState)
        requires
            self.back_ticks <= 1,
            c == '#' && !self.in_code_block ==> self.header_count < 255,
            c == '*' ==> self.asterisks < 255,
        ensures
            next == markup_step(*self, c),
            next.back_ticks <= 1,
    {
        let st = *self;
        if c == ' ' {
            MarkupState { last_char: c, ..st }
        } else if c == '\n' {
            MarkupState { last_char: c, parsing_header: false, ..st }
        } else if c == '#' && !st.in_code_block {
            MarkupState { header_count: st.header_count + 1, parsing_header: true, ..st }
        } else {
            let header_count = if st.parsing_header && st.header_count > 0 {
                0u8
            } else {
                st.header_count
            };
            let (in_code_block, writing_code, back_ticks) = st.code_flags(c);
            if c == '*' && !in_code_block {
                MarkupState {
                    header_count,
                    in_code_block,
                    writing_code,
                    back_ticks,
                    asterisks: st.asterisks + 1,
                    ..st
                }
            } else {
                let (italic, bold) = if c == '*' {
                    (st.italic, st.bold)
                } else {
                    emphasis_flags(st.asterisks, st.italic, st.bold)
                };
                let asterisks = if c == '*' {
                    st.asterisks + 1
                } else {
                    0u8
                };
                MarkupState {
                    last_char: c,
                    header_count,
                    parsing_header: st.parsing_header,
                    in_code_block,
                    writing_code,
                    back_ticks: if back_ticks == 2 {
                        0u8
                    } else {
                        back_ticks
                    },
                    multi_line_code: if back_ticks == 2 {
                        !st.multi_line_code
                    } else {
                        st.multi_line_code
                    },
                    bold,
                    italic,
                    asterisks,
                }
            }
        }
    }

    /// The code-block flags after a character that is not a space, a line
    /// break or a header mark.
    fn code_flags(&self, c: char) -> (flags: (bool, bool, u8))
        requires
            self.back_ticks <= 1,
        ensures
            flags == code_step(*self, c),
            flags.2 <= 2,
    {
        if c == '`' && !self.in_code_block && !self.writing_code {
            (true, self.writing_code, self.back_ticks)
        } else if c == '`' && self.last_char == '`' {
            (self.in_code_block, self.writing_code, self.back_ticks + 1)
        } else if self.in_code_block && !self.writing_code {
            (self.in_code_block, true, self.back_ticks)
        } else if c == '`' && self.writing_code && !self.multi_line_code {
            (false, false, self.back_ticks)
        } else {
            (self.in_code_block, self.writing_code, self.back_ticks)
        }
    }
}

/// The emphasis flags `(italic, bold)` once a run of stars ends.
fn emphasis_flags(asterisks: u8, italic: bool, bold: bool) -> (flags: (bool, bool))
    ensures
        flags == emphasis_step(asterisks, italic, bold),
{
    if asterisks == 1 && !italic {
        (true, bold)
    } else if asterisks == 2 && !bold {
        (italic, true)
    } else if asterisks == 1 && italic {
        (false, bold)
    } else if asterisks == 2 && bold {
        (italic, false)
    } else {
        (italic, bold)
    }
}

/// Whether a word no longer fits on the line, for widths that `str_width`
/// measured.
pub fn wraps(line_width: usize, word_width: usize, screen_width: u16) -> (wrap: bool)
    requires
        screen_width >= 1,
    ensures
        wrap == line_overflows(line_width as int, word_width as int, screen_width),
{
    let limit: usize = (screen_width - 1) as usize;
    if word_width >= limit {
        true
    } else {
        line_width >= limit - word_width
    }
}

/// The colour name of a header of the given level.
pub fn header_color<'a>(level: u8, default_color: &'a str) -> (name: &'a str)
    ensures
        name@ == header_color_name(level, default_color@),
{
    if level == 1 {
        "yellow"
    } else if level == 2 {
        "green"
    } else if level == 3 {
        "blue"
    } else if level == 4 {
        "red"
    } else if level == 5 {
        "magenta"
    } else if level == 6 {
        "white"
    } else {
        default_color
    }
}

/// The renderer: markup state and the text produced so far.
pub struct Renderer {
    pub markup: MarkupState,
    pub formatted: String,
    pub line: String,
    pub word: String,
}

impl View for Renderer {
    type V = RenderState;

    open spec fn view(&self) -> RenderState {
        RenderState {
            markup: self.markup,
            formatted: self.formatted@,
            line: self.line@,
            word: self.word@,
        }
    }
}

impl Renderer {
    /// A renderer before the first character.
    pub fn new(default_color: &str) -> (r: Renderer)
        ensures
            r@ == initial_render(default_color@),
    {
        let mut line = String::from_str(ansi_code(default_color));
        line.append("\n  ");
        Renderer { markup: MarkupState::new(), formatted: String::new(), line, word: String::new() }
    }

    /// Renders one more character.
    pub fn step(&mut self, c: char, screen_width: u16, default_color: &str)
        requires
            !markup_faults(old(self).markup, c, screen_width),
            old(self).markup.back_ticks <= 1,
        ensures
            final(self)@ == render_step(old(self)@, c, screen_width, default_color@),
            final(self).markup.back_ticks <= 1,
    {
        let st = self.markup;
        if c == ' ' {
            self.step_space(screen_width);
        } else if c == '\n' {
            self.step_newline(screen_width);
        } else if c == '#' && !st.in_code_block {
        } else {
            self.step_other(c, default_color);
        }
        self.markup = st.next(c);
    }

    /// The text side of a space: the word joins the line, after a line break
    /// when it does not fit.
    fn step_space(&mut self, screen_width: u16)
        requires
            screen_width >= 1,
        ensures
            final(self).markup == old(self).markup,
            final(self).formatted@ == render_step(old(self)@, ' ', screen_width, Seq::empty()).formatted,
            final(self).line@ == render_step(old(self)@, ' ', screen_width, Seq::empty()).line,
            final(self).word@ == render_step(old(self)@, ' ', screen_width, Seq::empty()).word,
    {
        let line_width = str_width(self.line.as_str());
        push_char(&mut self.word, ' ');
        let word_width = str_width(self.word.as_str());
        if wraps(line_width, word_width, screen_width) {
            self.line.append("\n  ");
            self.formatted.append(self.line.as_str());
            self.line = String::new();
        }
        if !str_equals(self.word.as_str(), " ") {
            self.line.append(self.word.as_str());
        }
        self.word = String::new();
    }

    /// The text side of a line break: line and word are flushed.
    fn step_newline(&mut self, screen_width: u16)
        requires
            screen_width >= 1,
        ensures
            final(self).markup == old(self).markup,
            final(self).formatted@ == render_step(old(self)@, '\n', screen_width, Seq::empty()).formatted,
            final(self).line@ == render_step(old(self)@, '\n', screen_width, Seq::empty()).line,
            final(self).word@ == render_step(old(self)@, '\n', screen_width, Seq::empty()).word,
    {
        let st = self.markup;
        let line_width = str_width(self.line.as_str());
        let word_width = str_width(self.word.as_str());
        if wraps(line_width, word_width, screen_width) {
            self.line.append("\n  ");
        }
        self.line.append(self.word.as_str());
        self.formatted.append(self.line.as_str());
        self.formatted.append("\n  ");
        assert(self.formatted@ =~= render_step(old(self)@, '\n', screen_width, Seq::empty()).formatted);
        self.line = String::new();
        self.word = String::new();
        if st.parsing_header || !st.writing_code {
            self.line.append(ansi_code(""));
        }
        assert(self.line@ =~= render_step(old(self)@, '\n', screen_width, Seq::empty()).line);
    }

    /// The text side of any other character.
    fn step_other(&mut self, c: char, default_color: &str)
        requires
            c != ' ',
            c != '\n',
            !(c == '#' && !old(self).markup.in_code_block),
            !markup_faults(old(self).markup, c, 1),
            old(self).markup.back_ticks <= 1,
        ensures
            final(self).markup == old(self).markup,
            final(self).formatted@ == render_step(old(self)@, c, 1, default_color@).formatted,
            final(self).line@ == render_step(old(self)@, c, 1, default_color@).line,
            final(self).word@ == render_step(old(self)@, c, 1, default_color@).word,
    {
        let st = self.markup;
        if st.parsing_header && st.header_count > 0 {
            self.line.append(ansi_code("bold"));
            self.line.append(ansi_code(header_color(st.header_count, default_color)));
        }
        let ghost line1 = self.line@;
        assert(line1 =~= (if st.parsing_header && st.header_count > 0 {
            old(self).line@ + ansi_code_of("bold"@) + ansi_code_of(
                header_color_name(st.header_count, default_color@),
            )
        } else {
            old(self).line@
        }));
        self.add_code_marks(c);
        let (in_code_block, _writing_code, back_ticks) = st.code_flags(c);
        if c == '*' {
            if st.asterisks + 1 == 3 && (st.bold || st.italic) {
                self.line.append(ansi_code(""));
            }
            if in_code_block {
                push_char(&mut self.word, c);
                self.close_fence(back_ticks, st.multi_line_code);
            }
        } else {
            self.add_emphasis(st.asterisks, st.italic, st.bold);
            if c != '`' {
                push_char(&mut self.word, c);
            }
            self.close_fence(back_ticks, st.multi_line_code);
            assert(self.line@ =~= line1 + emphasis_text(st.asterisks, st.italic, st.bold));
        }
    }

    /// Adds to the word the sequences that the code-block marks of `c` call for.
    fn add_code_marks(&mut self, c: char)
        ensures
            final(self)@ == (RenderState { word: code_text(old(self).markup, c, old(self).word@), ..old(self)@ }),
    {
        let st = self.markup;
        if c == '`' && !st.in_code_block && !st.writing_code {
            self.word.append(ansi_code("green"));
            self.word.append(ansi_code("!black"));
        } else if c == '`' && st.last_char == '`' {
        } else if st.in_code_block && !st.writing_code {
        } else if c == '`' && st.writing_code {
            if !st.multi_line_code {
                self.word.append(ansi_code(""));
            } else {
                self.word.append("\n  ");
            }
        }
    }

    /// Adds to the line the sequences that end a run of stars.
    fn add_emphasis(&mut self, asterisks: u8, italic: bool, bold: bool)
        ensures
            final(self)@ == (RenderState { line: old(self).line@ + emphasis_text(asterisks, italic, bold), ..old(self)@ }),
    {
        if asterisks == 1 && !italic {
            self.line.append(ansi_code("italic"));
        } else if asterisks == 2 && !bold {
            self.line.append(ansi_code("bold"));
        } else if asterisks == 1 && italic {
            self.line.append(ansi_code(""));
            if bold {
                self.line.append(ansi_code("bold"));
            }
        } else if asterisks == 2 && bold {
            self.line.append(ansi_code(""));
            if italic {
                self.line.append(ansi_code("italic"));
            }
        }
        assert(self.line@ =~= old(self).line@ + emphasis_text(asterisks, italic, bold));
    }

    /// Adds to the word what a second back tick in a row calls for.
    fn close_fence(&mut self, back_ticks: u8, multi_line_code: bool)
        ensures
            final(self)@ == (RenderState { word: fence_text(old(self).word@, back_ticks, multi_line_code), ..old(self)@ }),
    {
        if back_ticks == 2 {
            if multi_line_code {
                self.word.append(ansi_code(""));
            }
            self.word.append("\n  ");
        }
    }
}

/// The renderer's markup state is the markup state after the same characters.
pub proof fn lemma_render_markup(s: Seq<char>, screen_width: u16, default_color: Seq<char>)
    ensures
        render_after(s, screen_width, default_color).markup == markup_after(s),
    decreases s.len(),
{
    if s.len() > 0 {
        lemma_render_markup(s.drop_last(), screen_width, default_color);
    }
}

/// Whether `source_string` renders on a screen `screen_width` columns wide
/// without a failure (see `markup_faults`).
pub fn renders_cleanly(source_string: &str, screen_width: u16) -> (clean: bool)
    ensures
        clean == renders_without_fault(source_string@, screen_width),
{
    broadcast use vstd::string::group_string_axioms;

    let mut st = MarkupState::new();
    let ghost mut seen: Seq<char> = Seq::empty();
    for c in it: source_string.chars()
        invariant
            it.seq() == source_string@,
            seen == it.history(),
            st == markup_after(seen),
            st.back_ticks <= 1,
            forall|i: int|
                0 <= i < seen.len() ==> !markup_faults(
                    #[trigger] markup_after(source_string@.take(i)),
                    source_string@[i],
                    screen_width,
                ),
    {
        assert(seen =~= source_string@.take(seen.len() as int));
        if markup_faults_at(&st, c, screen_width) {
            assert(!renders_without_fault(source_string@, screen_width)) by {
                assert(source_string@[seen.len() as int] == c);
            }
            return false;
        }
        proof {
            assert(source_string@[seen.len() as int] == c);
            assert forall|i: int| 0 <= i < seen.len() + 1 implies !markup_faults(
                #[trigger] markup_after(source_string@.take(i)),
                source_string@[i],
                screen_width,
            ) by {
                if i == seen.len() {
                }
            }
        }
        st = st.next(c);
        proof {
            let next = seen.push(c);
            assert(next.drop_last() =~= seen);
            seen = next;
        }
    }
    assert(seen =~= source_string@);
    true
}

/// Whether rendering character `c` in markup state `st` would fail.
fn markup_faults_at(st: &MarkupState, c: char, screen_width: u16) -> (fault: bool)
    ensures
        fault == markup_faults(*st, c, screen_width),
{
    if c == ' ' || c == '\n' {
        screen_width == 0
    } else if c == '#' && !st.in_code_block {
        st.header_count == 255
    } else {
        (st.parsing_header && st.header_count > 6) || (c == '*' && st.asterisks == 255)
    }
}

/// Renders a markdown reply for a terminal `screen_width` columns wide, with
/// `default_color` for plain text.
pub fn preformat(source_string: &str, screen_width: u16, default_color: &str) -> (formatted: String)
    requires
        renders_without_fault(source_string@, screen_width),
    ensures
        formatted@ == rendered(source_string@, screen_width, default_color@),
{
    broadcast use vstd::string::group_string_axioms;

    let mut r = Renderer::new(default_color);
    let ghost mut seen: Seq<char> = Seq::empty();
    for c in it: source_string.chars()
        invariant
            it.seq() == source_string@,
            seen == it.history(),
            r@ == render_after(seen, screen_width, default_color@),
            r.markup.back_ticks <= 1,
            renders_without_fault(source_string@, screen_width),
    {
        proof {
            lemma_render_markup(seen, screen_width, default_color@);
            assert(seen =~= source_string@.take(seen.len() as int));
            assert(source_string@[seen.len() as int] == c);
        }
        r.step(c, screen_width, default_color);
        proof {
            let next = seen.push(c);
            assert(next.drop_last() =~= seen);
            seen = next;
        }
    }
    assert(seen =~= source_string@);
    let Renderer { markup: _, formatted: mut formatted, line: mut line, word } = r;
    if !word.as_str().is_empty() {
        line.append(word.as_str());
    }
    if !line.as_str().is_empty() {
        formatted.append(line.as_str());
    }
    assert(formatted@ =~= rendered(source_string@, screen_width, default_color@));
    formatted
}

/// One character to type: the bytes that display it, and whether to pause
/// before writing them.
#[derive(Debug, PartialEq, Eq)]
pub struct Keystroke {
    pub bytes: Vec<u8>,
    pub pause: bool,
}

/// Whether typing is inside an escape sequence after character `c`, when it
/// was inside one (`in_escape`) before: the escape character opens a sequence
/// and an `m` closes it.
pub open spec fn escape_after(in_escape: bool, c: char) -> bool {
    let opened = c == '\x1b' || in_escape;
    if opened && c == 'm' {
        false
    } else {
        opened
    }
}

/// Whether typing pauses before character `c`: only outside escape sequences.
pub open spec fn pause_for(in_escape: bool, c: char) -> bool {
    !(c == '\x1b' || in_escape)
}

/// Whether typing is inside an escape sequence after the characters of `s`.
pub open spec fn escape_after_text(s: Seq<char>) -> bool
    decreases s.len(),
{
    if s.len() == 0 {
        false
    } else {
        escape_after(escape_after_text(s.drop_last()), s.last())
    }
}

/// For each character of `s`, whether typing pauses before it.
pub open spec fn typing_pauses(s: Seq<char>) -> Seq<bool>
    decreases s.len(),
{
    if s.len() == 0 {
        Seq::empty()
    } else {
        typing_pauses(s.drop_last()).push(pause_for(escape_after_text(s.drop_last()), s.last()))
    }
}

/// One pause decision per character.
pub proof fn lemma_typing_pauses_len(s: Seq<char>)
    ensures
        typing_pauses(s).len() == s.len(),
    decreases s.len(),
{
    if s.len() > 0 {
        lemma_typing_pauses_len(s.drop_last());
    }
}

/// The keystrokes carry, one per character, the UTF-8 encoding of `s`.
pub open spec fn encodes_chars(keys: Seq<Keystroke>, s: Seq<char>) -> bool {
    &&& keys.len() == s.len()
    &&& forall|i: int|
        0 <= i < s.len() ==> (#[trigger] keys[i]).bytes@ == vstd::utf8::encode_scalar(s[i] as u32)
}

/// The bytes that typing the keystrokes writes, in order.
pub open spec fn written_bytes(keys: Seq<Keystroke>) -> Seq<u8>
    decreases keys.len(),
{
    if keys.len() == 0 {
        Seq::empty()
    } else {
        keys[0].bytes@ + written_bytes(keys.drop_first())
    }
}

/// The UTF-8 encoding of a character.
pub fn utf8_bytes(c: char) -> (bytes: Vec<u8>)
    ensures
        bytes@ == vstd::utf8::encode_scalar(c as u32),
{
    proof {
        vstd::utf8::char_is_scalar(c);
    }
    let v: u32 = c as u32;
    if v <= 0x7F {
        vec![(v & 0x7F) as u8]
    } else if v <= 0x7FF {
        vec![0xC0 | ((v >> 6) & 0x1F) as u8, 0x80 | (v & 0x3F) as u8]
    } else if v <= 0xFFFF {
        vec![
            0xE0 | ((v >> 12) & 0x0F) as u8,
            0x80 | ((v >> 6) & 0x3F) as u8,
            0x80 | (v & 0x3F) as u8,
        ]
    } else {
        vec![
            0xF0 | ((v >> 18) & 0x7) as u8,
            0x80 | ((v >> 12) & 0x3F) as u8,
            0x80 | ((v >> 6) & 0x3F) as u8,
            0x80 | (v & 0x3F) as u8,
        ]
    }
}

/// The keystrokes that type `text`: each character's UTF-8 bytes, with a
/// pause before every character outside an escape sequence.
pub fn keystrokes_for(text: &str) -> (keys: Vec<Keystroke>)
    ensures
        encodes_chars(keys@, text@),
        forall|i: int| 0 <= i < text@.len() ==> (#[trigger] keys@[i]).pause == typing_pauses(text@)[i],
{
    broadcast use vstd::string::group_string_axioms;

    let mut keys: Vec<Keystroke> = Vec::new();
    let mut is_ansi_code: bool = false;
    let ghost mut seen: Seq<char> = Seq::empty();
    for c in it: text.chars()
        invariant
            it.seq() == text@,
            seen == it.history(),
            encodes_chars(keys@, seen),
            forall|i: int| 0 <= i < seen.len() ==> (#[trigger] keys@[i]).pause == typing_pauses(seen)[i],
            is_ansi_code == escape_after_text(seen),
    {
        if c == '\x1b' && !is_ansi_code {
            is_ansi_code = true;
        }
        let pause = !is_ansi_code;
        if is_ansi_code && c == 'm' {
            is_ansi_code = false;
        }
        keys.push(Keystroke { bytes: utf8_bytes(c), pause });
        proof {
            let next = seen.push(c);
            assert(next.drop_last() =~= seen);
            lemma_typing_pauses_len(seen);
            assert(typing_pauses(next) == typing_pauses(seen).push(
                pause_for(escape_after_text(seen), c),
            ));
            assert forall|i: int| 0 <= i < next.len() implies (#[trigger] keys@[i]).bytes@
                == vstd::utf8::encode_scalar(next[i] as u32) by {
                if i < seen.len() {
                    assert(next[i] == seen[i]);
                }
            }
            assert forall|i: int| 0 <= i < next.len() implies (#[trigger] keys@[i]).pause
                == typing_pauses(next)[i] by {
                if i < seen.len() {
                    assert(typing_pauses(next)[i] == typing_pauses(seen)[i]);
                }
            }
            seen = next;
        }
    }
    assert(seen =~= text@);
    keys
}

/// The pause in milliseconds between typed characters of a rendered reply.
pub fn typing_delay(formatted: &str) -> (ms: u64)
    ensures
        ms == 25,
{
    let mut speed: u64 = 25;
    if formatted.len() > 200 {
        speed = 25;
    }
    speed
}

/// Whether `s` begins with `p`.
pub open spec fn starts_with(s: Seq<char>, p: Seq<char>) -> bool {
    p.len() <= s.len() && s.take(p.len() as int) == p
}

proof fn lemma_starts_with_extend(s: Seq<char>, p: Seq<char>, t: Seq<char>)
    requires
        starts_with(s, p),
    ensures
        starts_with(s + t, p),
{
    assert((s + t).take(p.len() as int) =~= s.take(p.len() as int));
}

/// What a character that is neither a space, a line break nor a header mark
/// does to the line: it only ever adds to its end.
proof fn lemma_other_char_extends_line(
    r: RenderState,
    c: char,
    screen_width: u16,
    default_color: Seq<char>,
)
    requires
        c != ' ',
        c != '\n',
        !(c == '#' && !r.markup.in_code_block),
    ensures
        starts_with(render_step(r, c, screen_width, default_color).line, r.line),
        render_step(r, c, screen_width, default_color).formatted == r.formatted,
{
    let st = r.markup;
    let line1 = if st.parsing_header && st.header_count > 0 {
        r.line + ansi_code_of("bold"@) + ansi_code_of(header_color_name(st.header_count, default_color))
    } else {
        r.line
    };
    assert(starts_with(r.line, r.line)) by {
        assert(r.line.take(r.line.len() as int) =~= r.line);
    }
    if st.parsing_header && st.header_count > 0 {
        lemma_starts_with_extend(r.line, r.line, ansi_code_of("bold"@));
        lemma_starts_with_extend(
            r.line + ansi_code_of("bold"@),
            r.line,
            ansi_code_of(header_color_name(st.header_count, default_color)),
        );
    }
    assert(starts_with(line1, r.line));
    lemma_starts_with_extend(line1, r.line, reset_seq());
    lemma_starts_with_extend(line1, r.line, emphasis_text(st.asterisks, st.italic, st.bold));
}

/// Until something is finished the line holds the opening; afterwards the
/// finished output does.
pub open spec fn holds_opening(r: RenderState, opening: Seq<char>) -> bool {
    (r.formatted.len() == 0 && starts_with(r.line, opening)) || starts_with(r.formatted, opening)
}

proof fn lemma_space_keeps_opening(
    r: RenderState,
    opening: Seq<char>,
    screen_width: u16,
    default_color: Seq<char>,
)
    requires
        holds_opening(r, opening),
    ensures
        holds_opening(render_step(r, ' ', screen_width, default_color), opening),
{
    let n = render_step(r, ' ', screen_width, default_color);
    let word = r.word.push(' ');
    let wrap = line_overflows(
        display_width(r.line) as int,
        display_width(word) as int,
        screen_width,
    );
    if wrap {
        if starts_with(r.formatted, opening) {
            lemma_starts_with_extend(r.formatted, opening, r.line + newline_seq());
            assert(r.formatted + r.line + newline_seq() =~= r.formatted + (r.line
                + newline_seq()));
        } else {
            lemma_starts_with_extend(r.line, opening, newline_seq());
            assert(r.formatted + r.line + newline_seq() =~= r.line + newline_seq());
        }
    } else if !starts_with(r.formatted, opening) {
        lemma_starts_with_extend(r.line, opening, word);
    }
}

proof fn lemma_newline_keeps_opening(
    r: RenderState,
    opening: Seq<char>,
    screen_width: u16,
    default_color: Seq<char>,
)
    requires
        holds_opening(r, opening),
    ensures
        holds_opening(render_step(r, '\n', screen_width, default_color), opening),
{
    let n = render_step(r, '\n', screen_width, default_color);
    let line = if line_overflows(
        display_width(r.line) as int,
        display_width(r.word) as int,
        screen_width,
    ) {
        r.line + newline_seq()
    } else {
        r.line
    };
    let tail = line + r.word + newline_seq();
    assert(n.formatted =~= r.formatted + tail);
    if starts_with(r.formatted, opening) {
        lemma_starts_with_extend(r.formatted, opening, tail);
    } else {
        lemma_starts_with_extend(r.line, opening, newline_seq());
        assert(starts_with(line, opening));
        lemma_starts_with_extend(line, opening, r.word + newline_seq());
        assert(line + (r.word + newline_seq()) =~= tail);
        assert(r.formatted + tail =~= tail);
    }
}

proof fn lemma_other_keeps_opening(
    r: RenderState,
    opening: Seq<char>,
    c: char,
    screen_width: u16,
    default_color: Seq<char>,
)
    requires
        holds_opening(r, opening),
        c != ' ',
        c != '\n',
    ensures
        holds_opening(render_step(r, c, screen_width, default_color), opening),
{
    if !(c == '#' && !r.markup.in_code_block) {
        let n = render_step(r, c, screen_width, default_color);
        lemma_other_char_extends_line(r, c, screen_width, default_color);
        if !starts_with(r.formatted, opening) {
            assert(n.line.take(opening.len() as int) =~= n.line.take(r.line.len() as int).take(
                opening.len() as int,
            ));
        }
    }
}

/// Rendering keeps the opening at the start of the text.
proof fn lemma_render_keeps_opening(s: Seq<char>, screen_width: u16, default_color: Seq<char>)
    ensures
        holds_opening(
            render_after(s, screen_width, default_color),
            ansi_code_of(default_color) + newline_seq(),
        ),
    decreases s.len(),
{
    let opening = ansi_code_of(default_color) + newline_seq();
    if s.len() == 0 {
        assert(opening.take(opening.len() as int) =~= opening);
    } else {
        let prev = s.drop_last();
        let c = s.last();
        lemma_render_keeps_opening(prev, screen_width, default_color);
        let r = render_after(prev, screen_width, default_color);
        if c == ' ' {
            lemma_space_keeps_opening(r, opening, screen_width, default_color);
        } else if c == '\n' {
            lemma_newline_keeps_opening(r, opening, screen_width, default_color);
        } else {
            lemma_other_keeps_opening(r, opening, c, screen_width, default_color);
        }
    }
}

/// Law: the rendered text always opens with the default colour's escape
/// sequence and a line break.
pub proof fn law_rendered_opens_with_default_color(
    s: Seq<char>,
    screen_width: u16,
    default_color: Seq<char>,
)
    ensures
        starts_with(
            rendered(s, screen_width, default_color),
            ansi_code_of(default_color) + newline_seq(),
        ),
{
    let r = render_after(s, screen_width, default_color);
    let opening = ansi_code_of(default_color) + newline_seq();
    lemma_render_keeps_opening(s, screen_width, default_color);
    if starts_with(r.formatted, opening) {
        lemma_starts_with_extend(r.formatted, opening, r.line + r.word);
        assert(r.formatted + (r.line + r.word) =~= r.formatted + r.line + r.word);
    } else {
        lemma_starts_with_extend(r.line, opening, r.word);
        assert(r.formatted + r.line + r.word =~= r.line + r.word);
    }
}

/// A character that is plain text everywhere: no space, line break, header
/// mark, star or back tick.
pub open spec fn plain_char(c: char) -> bool {
    c != ' ' && c != '\n' && c != '#' && c != '*' && c != '`'
}

/// The renderer's state after plain characters only: nothing is open and
/// the characters form the current word.
proof fn lemma_plain_render(s: Seq<char>, screen_width: u16, default_color: Seq<char>)
    requires
        forall|i: int| 0 <= i < s.len() ==> plain_char(#[trigger] s[i]),
    ensures
        ({
            let r = render_after(s, screen_width, default_color);
            let m = r.markup;
            &&& m.header_count == 0 && !m.parsing_header && !m.in_code_block && !m.writing_code
            &&& m.back_ticks == 0 && !m.multi_line_code && !m.bold && !m.italic && m.asterisks == 0
            &&& r.formatted.len() == 0
            &&& r.line == ansi_code_of(default_color) + newline_seq()
            &&& r.word == s
        }),
    decreases s.len(),
{
    if s.len() > 0 {
        let prev = s.drop_last();
        assert forall|i: int| 0 <= i < prev.len() implies plain_char(#[trigger] prev[i]) by {
            assert(prev[i] == s[i]);
        }
        assert(plain_char(s[s.len() - 1]));
        lemma_plain_render(prev, screen_width, default_color);
        let r = render_after(prev, screen_width, default_color);
        assert(r.line + emphasis_text(0, false, false) =~= r.line);
        assert(prev.push(s.last()) =~= s);
    }
}

/// Law: plain text (no space, line break, header mark, star or back tick)
/// renders as itself after the opening, on any screen.
pub proof fn law_plain_text_renders_verbatim(s: Seq<char>, screen_width: u16, default_color: Seq<char>)
    requires
        forall|i: int| 0 <= i < s.len() ==> plain_char(#[trigger] s[i]),
    ensures
        rendered(s, screen_width, default_color) == ansi_code_of(default_color) + newline_seq() + s,
{
    lemma_plain_render(s, screen_width, default_color);
    assert(rendered(s, screen_width, default_color) =~= ansi_code_of(default_color) + newline_seq()
        + s);
}

/// Without header marks and stars no header or emphasis count ever grows.
proof fn lemma_no_marks_no_counts(s: Seq<char>)
    requires
        forall|i: int| 0 <= i < s.len() ==> #[trigger] s[i] != '#' && s[i] != '*',
    ensures
        markup_after(s).header_count == 0,
        !markup_after(s).parsing_header,
        markup_after(s).asterisks == 0,
    decreases s.len(),
{
    if s.len() > 0 {
        let prev = s.drop_last();
        assert forall|i: int| 0 <= i < prev.len() implies #[trigger] prev[i] != '#' && prev[i]
            != '*' by {
            assert(prev[i] == s[i]);
        }
        assert(s[s.len() - 1] != '#');
        lemma_no_marks_no_counts(prev);
    }
}

/// Law: text without header marks and stars renders without failure on any
/// screen at least one column wide.
pub proof fn law_unmarked_text_renders(s: Seq<char>, screen_width: u16)
    requires
        screen_width >= 1,
        forall|i: int| 0 <= i < s.len() ==> #[trigger] s[i] != '#' && s[i] != '*',
    ensures
        renders_without_fault(s, screen_width),
{
    assert forall|i: int| 0 <= i < s.len() implies !markup_faults(
        #[trigger] markup_after(s.take(i)),
        s[i],
        screen_width,
    ) by {
        let p = s.take(i);
        assert forall|j: int| 0 <= j < p.len() implies #[trigger] p[j] != '#' && p[j] != '*' by {
            assert(p[j] == s[j]);
        }
        lemma_no_marks_no_counts(p);
    }
}

/// Law: typing writes exactly the UTF-8 encoding of the text.
pub proof fn law_typing_writes_utf8(keys: Seq<Keystroke>, s: Seq<char>)
    requires
        encodes_chars(keys, s),
    ensures
        written_bytes(keys) == vstd::utf8::encode_utf8(s),
    decreases s.len(),
{
    if s.len() > 0 {
        assert(encodes_chars(keys.drop_first(), s.drop_first())) by {
            assert forall|i: int| 0 <= i < s.drop_first().len() implies (
            #[trigger] keys.drop_first()[i]).bytes@ == vstd::utf8::encode_scalar(
                s.drop_first()[i] as u32,
            ) by {
                assert(keys.drop_first()[i] == keys[i + 1]);
            }
        }
        law_typing_writes_utf8(keys.drop_first(), s.drop_first());
        assert(keys[0].bytes@ == vstd::utf8::encode_scalar(s[0] as u32));
    }
}

/// Typing a sequence that opens with the escape character, has no `m` before
/// its last character and ends in `m`: the escape stays open until that `m`,
/// and typing never pauses.
proof fn lemma_escape_prefix(s: Seq<char>, k: int)
    requires
        s.len() >= 2,
        s[0] == '\x1b',
        s.last() == 'm',
        forall|i: int| 0 < i < s.len() - 1 ==> #[trigger] s[i] != 'm',
        1 <= k <= s.len(),
    ensures
        k < s.len() ==> escape_after_text(s.take(k)),
        k == s.len() ==> !escape_after_text(s.take(k)),
        typing_pauses(s.take(k)).len() == k,
        forall|i: int| 0 <= i < k ==> !(#[trigger] typing_pauses(s.take(k))[i]),
    decreases k,
{
    let p = s.take(k);
    let prev = s.take(k - 1);
    assert(p.drop_last() =~= prev);
    assert(p.last() == s[k - 1]);
    if k == 1 {
        assert(prev.len() == 0);
        assert(typing_pauses(prev) == Seq::<bool>::empty());
        assert(!escape_after_text(prev));
        assert(typing_pauses(p) == seq![pause_for(false, s[0])]);
    } else {
        lemma_escape_prefix(s, k - 1);
        assert forall|i: int| 0 <= i < k implies !(#[trigger] typing_pauses(p)[i]) by {
            if i < k - 1 {
                assert(typing_pauses(p)[i] == typing_pauses(prev)[i]);
            }
        }
    }
}

/// The shape of every escape sequence that `ansi_code_of` gives: an escape
/// byte, then characters other than `m`, then a final `m`.
proof fn lemma_ansi_code_shape(name: Seq<char>)
    ensures
        ({
            let code = ansi_code_of(name);
            &&& code.len() >= 2
            &&& code[0] == '\x1b'
            &&& code.last() == 'm'
            &&& forall|i: int| 0 < i < code.len() - 1 ==> #[trigger] code[i] != 'm'
        }),
{
    reveal_strlit("\x1b[30m");
    reveal_strlit("\x1b[31m");
    reveal_strlit("\x1b[32m");
    reveal_strlit("\x1b[33m");
    reveal_strlit("\x1b[34m");
    reveal_strlit("\x1b[35m");
    reveal_strlit("\x1b[36m");
    reveal_strlit("\x1b[37m");
    reveal_strlit("\x1b[40m");
    reveal_strlit("\x1b[41m");
    reveal_strlit("\x1b[42m");
    reveal_strlit("\x1b[43m");
    reveal_strlit("\x1b[44m");
    reveal_strlit("\x1b[45m");
    reveal_strlit("\x1b[46m");
    reveal_strlit("\x1b[47m");
    reveal_strlit("\x1b[1m");
    reveal_strlit("\x1b[3m");
    reveal_strlit("\x1b[4m");
    reveal_strlit("\x1b[0m");
}

/// Law: every colour or style sequence is typed without a pause, and typing
/// is outside any escape sequence again once it has been typed.
pub proof fn law_escape_codes_type_at_once(name: Seq<char>)
    ensures
        forall|i: int|
            0 <= i < ansi_code_of(name).len() ==> !(#[trigger] typing_pauses(ansi_code_of(name))[i]),
        !escape_after_text(ansi_code_of(name)),
{
    let code = ansi_code_of(name);
    lemma_ansi_code_shape(name);
    lemma_escape_prefix(code, code.len() as int);
    assert(code.take(code.len() as int) =~= code);
}

/// Law: the second back tick in a row inside a code block toggles the
/// multi-line code block. Opening it starts a new line; closing it first ends
/// the code colours with the reset sequence and then starts a new line.
pub proof fn law_code_fence_toggles(r: RenderState, screen_width: u16, default_color: Seq<char>)
    requires
        r.markup.in_code_block,
        r.markup.last_char == '`',
        r.markup.back_ticks == 1,
    ensures
        ({
            let n = render_step(r, '`', screen_width, default_color);
            &&& r.markup.multi_line_code ==> n.word == r.word + ansi_code_of(""@) + "\n  "@
            &&& !r.markup.multi_line_code ==> n.word == r.word + "\n  "@
            &&& n.markup.multi_line_code == !r.markup.multi_line_code
            &&& n.markup.back_ticks == 0
            &&& n.markup.in_code_block
            &&& n.formatted == r.formatted
        }),
{
}

/// Law: how the end of a run of stars (followed by an ordinary character)
/// switches emphasis. One star opens italic or, when italic is on, closes it
/// and turns bold back on if bold is still on; two stars do the same for bold
/// and italic. No other run changes the line.
pub proof fn law_emphasis_runs(r: RenderState, c: char, screen_width: u16, default_color: Seq<char>)
    requires
        plain_char(c),
        r.markup.header_count == 0,
    ensures
        ({
            let st = r.markup;
            let n = render_step(r, c, screen_width, default_color);
            &&& st.asterisks == 1 && !st.italic ==> n.line == r.line + ansi_code_of("italic"@)
                && n.markup.italic && n.markup.bold == st.bold
            &&& st.asterisks == 2 && !st.bold ==> n.line == r.line + ansi_code_of("bold"@)
                && n.markup.bold && n.markup.italic == st.italic
            &&& st.asterisks == 1 && st.italic && st.bold ==> n.line == r.line + ansi_code_of(""@)
                + ansi_code_of("bold"@) && !n.markup.italic && n.markup.bold
            &&& st.asterisks == 1 && st.italic && !st.bold ==> n.line == r.line + ansi_code_of(""@)
                && !n.markup.italic && !n.markup.bold
            &&& st.asterisks == 2 && st.bold && st.italic ==> n.line == r.line + ansi_code_of(""@)
                + ansi_code_of("italic"@) && !n.markup.bold && n.markup.italic
            &&& st.asterisks == 2 && st.bold && !st.italic ==> n.line == r.line + ansi_code_of(""@)
                && !n.markup.bold && !n.markup.italic
            &&& st.asterisks != 1 && st.asterisks != 2 ==> n.line == r.line && n.markup.bold
                == st.bold && n.markup.italic == st.italic
            &&& n.markup.asterisks == 0
            &&& n.formatted == r.formatted
        }),
{
    let st = r.markup;
    let n = render_step(r, c, screen_width, default_color);
    assert(n.line == r.line + emphasis_text(st.asterisks, st.italic, st.bold));
    if st.asterisks != 1 && st.asterisks != 2 {
        assert(r.line + Seq::<char>::empty() =~= r.line);
    }
    if st.asterisks == 1 && st.italic && !st.bold {
        assert(ansi_code_of(""@) + Seq::<char>::empty() =~= ansi_code_of(""@));
    }
    if st.asterisks == 2 && st.bold && !st.italic {
        assert(ansi_code_of(""@) + Seq::<char>::empty() =~= ansi_code_of(""@));
    }
    if st.asterisks == 1 && st.italic && st.bold {
        assert(r.line + (ansi_code_of(""@) + ansi_code_of("bold"@)) =~= r.line + ansi_code_of(""@)
            + ansi_code_of("bold"@));
    }
    if st.asterisks == 2 && st.bold && st.italic {
        assert(r.line + (ansi_code_of(""@) + ansi_code_of("italic"@)) =~= r.line + ansi_code_of(
            ""@,
        ) + ansi_code_of("italic"@));
    }
}

/// Law: a line break ends the line. When the pending word does not fit
/// (line and word reach one column less than the screen), the word goes to a
/// new indented line first; either way the finished text then gets a new
/// indented line and the word is consumed.
pub proof fn law_line_break_wraps(r: RenderState, screen_width: u16, default_color: Seq<char>)
    ensures
        ({
            let n = render_step(r, '\n', screen_width, default_color);
            let fits = display_width(r.line) + display_width(r.word) < screen_width - 1;
            &&& !fits ==> n.formatted == r.formatted + r.line + "\n  "@ + r.word + "\n  "@
            &&& fits ==> n.formatted == r.formatted + r.line + r.word + "\n  "@
            &&& n.word.len() == 0
            &&& (r.markup.parsing_header || !r.markup.writing_code) ==> n.line == ansi_code_of(""@)
            &&& !(r.markup.parsing_header || !r.markup.writing_code) ==> n.line.len() == 0
        }),
{
    let n = render_step(r, '\n', screen_width, default_color);
    let fits = display_width(r.line) + display_width(r.word) < screen_width - 1;
    if !fits {
        assert(n.formatted =~= r.formatted + r.line + "\n  "@ + r.word + "\n  "@);
    } else {
        assert(n.formatted =~= r.formatted + r.line + r.word + "\n  "@);
    }
}

/// Law: a space ends the pending word. When the word with its space does not
/// fit (line and word reach one column less than the screen), the line is
/// finished with a new indented line and the word starts the next line; a
/// word that was empty adds nothing.
pub proof fn law_space_wraps(r: RenderState, screen_width: u16, default_color: Seq<char>)
    ensures
        ({
            let n = render_step(r, ' ', screen_width, default_color);
            let word = r.word.push(' ');
            let fits = display_width(r.line) + display_width(word) < screen_width - 1;
            &&& !fits ==> n.formatted == r.formatted + r.line + "\n  "@
            &&& fits ==> n.formatted == r.formatted
            &&& !fits && r.word.len() > 0 ==> n.line == word
            &&& !fits && r.word.len() == 0 ==> n.line.len() == 0
            &&& fits && r.word.len() > 0 ==> n.line == r.line + word
            &&& fits && r.word.len() == 0 ==> n.line == r.line
            &&& n.word.len() == 0
        }),
{
    broadcast use vstd::string::group_string_axioms;

    reveal_strlit(" ");
    let word = r.word.push(' ');
    if r.word.len() > 0 {
        assert(word.len() != 1);
        assert(word != " "@);
    } else {
        assert(word =~= " "@);
    }
    let n = render_step(r, ' ', screen_width, default_color);
    assert(Seq::<char>::empty() + word =~= word);
}

/// Law: the first ordinary character after `k` header marks (1 to 6) starts a
/// bold header coloured by its level: 1 yellow, 2 green, 3 blue, 4 red,
/// 5 magenta, 6 white, whatever the default colour.
pub proof fn law_header_colors(r: RenderState, c: char, screen_width: u16, default_color: Seq<char>)
    requires
        plain_char(c),
        r.markup.parsing_header,
        1 <= r.markup.header_count <= 6,
        r.markup.asterisks == 0,
        r.markup.back_ticks <= 1,
    ensures
        ({
            let n = render_step(r, c, screen_width, default_color);
            let bold = r.line + ansi_code_of("bold"@);
            &&& r.markup.header_count == 1 ==> n.line == bold + ansi_code_of("yellow"@)
            &&& r.markup.header_count == 2 ==> n.line == bold + ansi_code_of("green"@)
            &&& r.markup.header_count == 3 ==> n.line == bold + ansi_code_of("blue"@)
            &&& r.markup.header_count == 4 ==> n.line == bold + ansi_code_of("red"@)
            &&& r.markup.header_count == 5 ==> n.line == bold + ansi_code_of("magenta"@)
            &&& r.markup.header_count == 6 ==> n.line == bold + ansi_code_of("white"@)
            &&& n.markup.header_count == 0
            &&& n.word == r.word.push(c)
        }),
{
    let st = r.markup;
    let n = render_step(r, c, screen_width, default_color);
    let line1 = r.line + ansi_code_of("bold"@) + ansi_code_of(
        header_color_name(st.header_count, default_color),
    );
    assert(n.line =~= line1 + emphasis_text(0, st.italic, st.bold));
    assert(line1 + Seq::<char>::empty() =~= line1);
}

/// Once a code block is open, no header is pending and at most one back tick
/// has been counted.
proof fn lemma_code_block_state(s: Seq<char>)
    ensures
        markup_after(s).back_ticks <= 1,
        markup_after(s).in_code_block ==> !(markup_after(s).parsing_header && markup_after(
            s,
        ).header_count > 0),
    decreases s.len(),
{
    if s.len() > 0 {
        lemma_code_block_state(s.drop_last());
    }
}

/// Law: inside a code block a `#` is literal text. It never fails, counts no
/// header level, starts no header, and is added to the word as it stands.
pub proof fn law_hash_in_code_is_text(s: Seq<char>, screen_width: u16, default_color: Seq<char>)
    requires
        markup_after(s).in_code_block,
    ensures
        !markup_faults(markup_after(s), '#', screen_width),
        ({
            let r = render_after(s, screen_width, default_color);
            let n = render_after(s.push('#'), screen_width, default_color);
            &&& n.markup.header_count == r.markup.header_count
            &&& n.markup.parsing_header == r.markup.parsing_header
            &&& n.markup.in_code_block
            &&& n.word == r.word.push('#')
            &&& n.formatted == r.formatted
        }),
{
    lemma_code_block_state(s);
    lemma_render_markup(s, screen_width, default_color);
    assert(s.push('#').drop_last() =~= s);
}

} // verus!
