//! Colored strings for the terminal.
use vstd::prelude::*;
use vstd::string::*;

verus! {

/// The supported colors.
#[derive(Clone, Copy, Debug, PartialEq, Eq)]
pub enum Color {
    Red,
    Green,
    Yellow,
    Blue,
    Magenta,
    Cyan,
    White,
}

/// The number that selects a color in a terminal escape sequence.
pub open spec fn escape_code(c: Color) -> Seq<char> {
    match c {
        Color::Red => "31"@,
        Color::Green => "32"@,
        Color::Yellow => "33"@,
        Color::Blue => "34"@,
        Color::Magenta => "35"@,
        Color::Cyan => "36"@,
        Color::White => "37"@,
    }
}

/// The codes follow the terminal's standard order of foreground colors, after black:
/// red, green, yellow, blue, magenta, cyan, white. The color `i` steps along that order has
/// the two digit code `3` and `i + 1`, that is 31 through 37.
pub proof fn law_escape_codes_follow_ansi(i: int)
    requires
        0 <= i < 7,
    ensures
        ({
            let order = seq![
                Color::Red,
                Color::Green,
                Color::Yellow,
                Color::Blue,
                Color::Magenta,
                Color::Cyan,
                Color::White,
            ];
            let code = escape_code(order[i]);
            code.len() == 2 && code[0] == '3' && code[1] as int == '1' as int + i
        }),
{
    reveal_strlit("31");
    reveal_strlit("32");
    reveal_strlit("33");
    reveal_strlit("34");
    reveal_strlit("35");
    reveal_strlit("36");
    reveal_strlit("37");
}

impl Color {
    /// The color as the number of its terminal escape sequence.
    pub fn escape_seq(&self) -> (r: String)
        ensures
            r@ == escape_code(*self),
    {
        match *self {
            Color::Red => String::from_str("31"),
            Color::Green => String::from_str("32"),
            Color::Yellow => String::from_str("33"),
            Color::Blue => String::from_str("34"),
            Color::Magenta => String::from_str("35"),
            Color::Cyan => String::from_str("36"),
            Color::White => String::from_str("37"),
        }
    }
}

/// A string with the color it is to be shown in, if any.
#[derive(Clone, Debug)]
pub struct ColorString {
    /// The text.
    pub raw: String,
    /// The color, if one was set.
    pub color: Option<Color>,
}

/// The text a colored string displays: the text itself when color is disabled or none was
/// set; otherwise the terminal's reset sequence.
pub open spec fn shown(raw: Seq<char>, color: Option<Color>, enabled: bool) -> Seq<char> {
    if !enabled || color is None {
        raw
    } else {
        seq!['\x1B', '[', '0', 'm']
    }
}

impl ColorString {
    /// The text, as the string it dereferences to.
    pub fn as_str(&self) -> (r: &str)
        ensures
            r@ == self.raw@,
    {
        self.raw.as_str()
    }

    /// What the string displays, given whether the terminal takes colors.
    pub fn render(&self, enabled: bool) -> (r: String)
        ensures
            r@ == shown(self.raw@, self.color, enabled),
    {
        if !enabled || self.color.is_none() {
            self.raw.clone()
        } else {
            let mut r = String::new();
            crate::text::push_char(&mut r, '\x1B');
            crate::text::push_char(&mut r, '[');
            crate::text::push_char(&mut r, '0');
            crate::text::push_char(&mut r, 'm');
            assert(r@ =~= seq!['\x1B', '[', '0', 'm']);
            r
        }
    }
}

/// Simple color functions for a type that holds text.
pub trait Colorable: Sized {
    /// The text held.
    spec fn text(&self) -> Seq<char>;

    /// The text in the given color.
    fn set_color(self, color: Color) -> (r: ColorString)
        ensures
            r.raw@ == self.text(),
            r.color == Some(color),
    ;

    /// The text with no color.
    fn clear(self) -> (r: ColorString)
        ensures
            r.raw@ == self.text(),
            r.color is None,
    ;

    /// The text in red.
    fn red(self) -> (r: ColorString)
        ensures
            r.raw@ == self.text(),
            r.color == Some(Color::Red),
    {
        self.set_color(Color::Red)
    }
}

impl Colorable for ColorString {
    open spec fn text(&self) -> Seq<char> {
        self.raw@
    }

    fn set_color(self, color: Color) -> (r: ColorString) {
        ColorString { raw: self.raw, color: Some(color) }
    }

    fn clear(self) -> (r: ColorString) {
        ColorString { raw: self.raw, color: None }
    }
}

impl<'a> Colorable for &'a str {
    open spec fn text(&self) -> Seq<char> {
        (*self)@
    }

    fn set_color(self, color: Color) -> (r: ColorString) {
        ColorString { raw: String::from_str(self), color: Some(color) }
    }

    fn clear(self) -> (r: ColorString) {
        ColorString { raw: String::from_str(self), color: None }
    }
}

} // verus!
