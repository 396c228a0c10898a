use vstd::prelude::*;

use vstd::string::StringExecFns;

use super::{lowercase, str_equals, to_lowercase};

verus! {

/// The colours that a piece of text can carry.
#[derive(Debug, Clone, Copy, PartialEq, Eq, Structural)]
pub enum Color {
    Black,
    Red,
    Green,
    Yellow,
    Blue,
    Magenta,
    Cyan,
    White,
    NoCol,
}

/// The colour that a lower-case colour name selects: one of the seven colour
/// names, `none` for no colour, and white for any other name.
pub open spec fn color_named(name: Seq<char>) -> Color {
    if name == "black"@ {
        Color::Black
    } else if name == "red"@ {
        Color::Red
    } else if name == "green"@ {
        Color::Green
    } else if name == "yellow"@ {
        Color::Yellow
    } else if name == "blue"@ {
        Color::Blue
    } else if name == "magenta"@ {
        Color::Magenta
    } else if name == "cyan"@ {
        Color::Cyan
    } else if name == "none"@ {
        Color::NoCol
    } else {
        Color::White
    }
}

impl Color {
    /// The colour selected by a name that is already in lower case.
    pub fn from_lowercase_name(name: &str) -> (color: Color)
        ensures
            color == color_named(name@),
    {
        if str_equals(name, "black") {
            Color::Black
        } else if str_equals(name, "red") {
            Color::Red
        } else if str_equals(name, "green") {
            Color::Green
        } else if str_equals(name, "yellow") {
            Color::Yellow
        } else if str_equals(name, "blue") {
            Color::Blue
        } else if str_equals(name, "magenta") {
            Color::Magenta
        } else if str_equals(name, "cyan") {
            Color::Cyan
        } else if str_equals(name, "none") {
            Color::NoCol
        } else {
            Color::White
        }
    }
}

/// Text styles a terminal can render.
pub enum TextStyle {
    Plain,
    Bold,
    Italic,
    Underline,
}

/// A piece of text together with its colour.
pub struct FormattedText {
    pub color: Color,
    pub text: String,
}

impl FormattedText {
    /// Pairs `text` with the colour named by `color`, whatever its case.
    pub fn new(color: &str, text: String) -> (formatted: Self)
        ensures
            formatted.color == color_named(lowercase(color@)),
            formatted.text@ == text@,
    {
        let lower = to_lowercase(color);
        let color_enum = Color::from_lowercase_name(lower.as_str());
        FormattedText { color: color_enum, text }
    }

    /// The text between the escape sequence named by `color` and the reset
    /// sequence.
    pub fn dye(&self, color: &str) -> (dyed: String)
        ensures
            dyed@ == ansi_code_of(color@) + self.text@ + ansi_code_of(""@),
    {
        let escape_char: &str = ansi_code(color);
        let clear: &str = ansi_code("");
        let mut dyed = String::from_str(escape_char);
        dyed.append(self.text.as_str());
        dyed.append(clear);
        dyed
    }
}

/// The ANSI escape sequence selected by a name: a foreground colour, a
/// background colour (the name preceded by `!`), a style, or the reset
/// sequence for every other name.
pub open spec fn ansi_code_of(name: Seq<char>) -> Seq<char> {
    if name == "black"@ {
        "\x1b[30m"@
    } else if name == "red"@ {
        "\x1b[31m"@
    } else if name == "green"@ {
        "\x1b[32m"@
    } else if name == "yellow"@ {
        "\x1b[33m"@
    } else if name == "blue"@ {
        "\x1b[34m"@
    } else if name == "magenta"@ {
        "\x1b[35m"@
    } else if name == "cyan"@ {
        "\x1b[36m"@
    } else if name == "white"@ {
        "\x1b[37m"@
    } else if name == "!black"@ {
        "\x1b[40m"@
    } else if name == "!red"@ {
        "\x1b[41m"@
    } else if name == "!green"@ {
        "\x1b[42m"@
    } else if name == "!yellow"@ {
        "\x1b[43m"@
    } else if name == "!blue"@ {
        "\x1b[44m"@
    } else if name == "!magenta"@ {
        "\x1b[45m"@
    } else if name == "!cyan"@ {
        "\x1b[46m"@
    } else if name == "!white"@ {
        "\x1b[47m"@
    } else if name == "bold"@ {
        "\x1b[1m"@
    } else if name == "italic"@ {
        "\x1b[3m"@
    } else if name == "underline"@ {
        "\x1b[4m"@
    } else {
        "\x1b[0m"@
    }
}

/// Returns the ANSI escape sequence for a colour or style name; any name it
/// does not know gives the reset sequence.
pub fn ansi_code(input_str: &str) -> (code: &'static str)
    ensures
        code@ == ansi_code_of(input_str@),
{
    if str_equals(input_str, "black") {
        "\x1b[30m"
    } else if str_equals(input_str, "red") {
        "\x1b[31m"
    } else if str_equals(input_str, "green") {
        "\x1b[32m"
    } else if str_equals(input_str, "yellow") {
        "\x1b[33m"
    } else if str_equals(input_str, "blue") {
        "\x1b[34m"
    } else if str_equals(input_str, "magenta") {
        "\x1b[35m"
    } else if str_equals(input_str, "cyan") {
        "\x1b[36m"
    } else if str_equals(input_str, "white") {
        "\x1b[37m"
    } else if str_equals(input_str, "!black") {
        "\x1b[40m"
    } else if str_equals(input_str, "!red") {
        "\x1b[41m"
    } else if str_equals(input_str, "!green") {
        "\x1b[42m"
    } else if str_equals(input_str, "!yellow") {
        "\x1b[43m"
    } else if str_equals(input_str, "!blue") {
        "\x1b[44m"
    } else if str_equals(input_str, "!magenta") {
        "\x1b[45m"
    } else if str_equals(input_str, "!cyan") {
        "\x1b[46m"
    } else if str_equals(input_str, "!white") {
        "\x1b[47m"
    } else if str_equals(input_str, "bold") {
        "\x1b[1m"
    } else if str_equals(input_str, "italic") {
        "\x1b[3m"
    } else if str_equals(input_str, "underline") {
        "\x1b[4m"
    } else {
        "\x1b[0m"
    }
}

} // verus!
