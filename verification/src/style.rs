//! Colors, text styles and their rendering as SGR escape sequences.
use vstd::prelude::*;

use crate::text::{decimal, decimal_chars, join_with, push_all, reset_seq, ESC};

verus! {

/// A terminal foreground color.
#[derive(Clone, Copy, Debug, PartialEq, Eq, Structural)]
pub enum Color {
    Black,
    Red,
    Green,
    Yellow,
    Blue,
    Magenta,
    Cyan,
    White,
    BrightBlack,
}

/// The SGR code used for each color.
#[derive(Clone, Copy, Debug, PartialEq, Eq, Structural)]
pub struct ColorMap {
    pub black: u8,
    pub red: u8,
    pub green: u8,
    pub yellow: u8,
    pub blue: u8,
    pub magenta: u8,
    pub cyan: u8,
    pub white: u8,
    pub bright_black: u8,
}

impl ColorMap {
    /// The SGR code this map assigns to `color`.
    pub open spec fn code_of(self, color: Color) -> u8 {
        match color {
            Color::Black => self.black,
            Color::Red => self.red,
            Color::Green => self.green,
            Color::Yellow => self.yellow,
            Color::Blue => self.blue,
            Color::Magenta => self.magenta,
            Color::Cyan => self.cyan,
            Color::White => self.white,
            Color::BrightBlack => self.bright_black,
        }
    }

    /// The SGR code this map assigns to `color`.
    pub fn code(&self, color: Color) -> (c: u8)
        ensures
            c == self.code_of(color),
    {
        match color {
            Color::Black => self.black,
            Color::Red => self.red,
            Color::Green => self.green,
            Color::Yellow => self.yellow,
            Color::Blue => self.blue,
            Color::Magenta => self.magenta,
            Color::Cyan => self.cyan,
            Color::White => self.white,
            Color::BrightBlack => self.bright_black,
        }
    }
}

impl ColorMap {
    /// The standard ANSI codes: 30 to 37 for the base colors, 90 for bright black.
    pub open spec fn default_spec() -> ColorMap {
        ColorMap {
            black: 30,
            red: 31,
            green: 32,
            yellow: 33,
            blue: 34,
            magenta: 35,
            cyan: 36,
            white: 37,
            bright_black: 90,
        }
    }
}

impl Default for ColorMap {
    /// The standard ANSI codes: 30 to 37 for the base colors, 90 for bright black.
    fn default() -> (m: Self)
        ensures
            m == ColorMap::default_spec(),
    {
        ColorMap {
            black: 30,
            red: 31,
            green: 32,
            yellow: 33,
            blue: 34,
            magenta: 35,
            cyan: 36,
            white: 37,
            bright_black: 90,
        }
    }
}

/// Text attributes: an optional foreground color, bold and dimmed.
#[derive(Clone, Copy, Debug, PartialEq, Eq, Structural)]
pub struct Style {
    pub fg: Option<Color>,
    pub bold: bool,
    pub dimmed: bool,
}

/// The style without any attribute.
pub open spec fn plain_style() -> Style {
    Style { fg: None, bold: false, dimmed: false }
}

impl Style {
    /// A style without any attribute.
    pub fn new() -> (s: Self)
        ensures
            s == plain_style(),
    {
        Style { fg: None, bold: false, dimmed: false }
    }

    /// The same style with foreground `color`.
    pub fn fg(self, color: Color) -> (s: Self)
        ensures
            s == (Style { fg: Some(color), ..self }),
    {
        Style { fg: Some(color), ..self }
    }

    /// The same style, bold.
    pub fn bold(self) -> (s: Self)
        ensures
            s == (Style { bold: true, ..self }),
    {
        Style { bold: true, ..self }
    }

    /// The same style, dimmed.
    pub fn dimmed(self) -> (s: Self)
        ensures
            s == (Style { dimmed: true, ..self }),
    {
        Style { dimmed: true, ..self }
    }
}

/// A partial style, as written in configuration: each attribute that is set
/// overrides the one of the style it is resolved against.
#[derive(Clone, Copy, Debug, PartialEq, Eq, Structural)]
pub struct StyleConfig {
    pub fg: Option<Color>,
    pub bold: Option<bool>,
    pub dimmed: Option<bool>,
}

/// The style `config` gives when resolved against `base`.
pub open spec fn resolve_spec(config: StyleConfig, base: Style) -> Style {
    Style {
        fg: match config.fg {
            Some(c) => Some(c),
            None => base.fg,
        },
        bold: match config.bold {
            Some(b) => b,
            None => base.bold,
        },
        dimmed: match config.dimmed {
            Some(d) => d,
            None => base.dimmed,
        },
    }
}

impl StyleConfig {
    /// The partial style that only sets the foreground color.
    pub open spec fn fg_spec(color: Color) -> StyleConfig {
        StyleConfig { fg: Some(color), bold: None, dimmed: None }
    }

    /// A partial style that only sets the foreground color.
    pub fn fg(color: Color) -> (s: Self)
        ensures
            s == (StyleConfig { fg: Some(color), bold: None, dimmed: None }),
    {
        StyleConfig { fg: Some(color), bold: None, dimmed: None }
    }

    /// Overrides the attributes of `base` that this configuration sets.
    pub fn resolve(&self, base: Style) -> (s: Style)
        ensures
            s == resolve_spec(*self, base),
    {
        Style {
            fg: match self.fg {
                Some(c) => Some(c),
                None => base.fg,
            },
            bold: match self.bold {
                Some(b) => b,
                None => base.bold,
            },
            dimmed: match self.dimmed {
                Some(d) => d,
                None => base.dimmed,
            },
        }
    }
}

impl Default for StyleConfig {
    /// A configuration that sets no attribute.
    fn default() -> (s: Self)
        ensures
            s == (StyleConfig { fg: None, bold: None, dimmed: None }),
    {
        StyleConfig { fg: None, bold: None, dimmed: None }
    }
}

/// The SGR codes of a style, in order: bold (1), dimmed (2), foreground color.
pub open spec fn sgr_codes(style: Style, map: ColorMap) -> Seq<u8> {
    (if style.bold { seq![1u8] } else { Seq::empty() }) + (if style.dimmed {
        seq![2u8]
    } else {
        Seq::empty()
    }) + match style.fg {
        Some(c) => seq![map.code_of(c)],
        None => Seq::empty(),
    }
}

/// The SGR sequence that switches on a style: `ESC [` codes separated by `;`, then `m`.
pub open spec fn sgr_open(style: Style, map: ColorMap) -> Seq<char> {
    seq![ESC, '['] + join_with(sgr_codes(style, map).map_values(|c: u8| decimal(c as nat)), ';')
        + seq!['m']
}

/// `text` drawn in `style`: the style's SGR sequence, the text, and a reset.
/// Empty texts and texts in the plain style are left as they are.
pub open spec fn paint_spec(text: Seq<char>, style: Style, map: ColorMap) -> Seq<char> {
    if text.len() == 0 || sgr_codes(style, map).len() == 0 {
        text
    } else {
        sgr_open(style, map) + text + reset_seq()
    }
}

fn sgr_code_list(style: Style, map: &ColorMap) -> (codes: Vec<u8>)
    ensures
        codes@ == sgr_codes(style, *map),
{
    let mut codes: Vec<u8> = Vec::new();
    if style.bold {
        codes.push(1);
    }
    if style.dimmed {
        codes.push(2);
    }
    match style.fg {
        Some(c) => codes.push(map.code(c)),
        None => {},
    }
    proof {
        assert(codes@ =~= sgr_codes(style, *map));
    }
    codes
}

/// Draws `text` in `style` (see [`paint_spec`]).
pub fn paint(text: &Vec<char>, style: Style, map: &ColorMap) -> (r: Vec<char>)
    ensures
        r@ == paint_spec(text@, style, *map),
{
    let codes = sgr_code_list(style, map);
    if text.len() == 0 || codes.len() == 0 {
        return text.clone();
    }
    let ghost views = codes@.map_values(|c: u8| decimal(c as nat));
    let mut out: Vec<char> = Vec::new();
    out.push(ESC);
    out.push('[');
    let mut i: usize = 0;
    while i < codes.len()
        invariant
            i <= codes@.len(),
            views == codes@.map_values(|c: u8| decimal(c as nat)),
            out@ == seq![ESC, '['] + join_with(views.take(i as int), ';'),
        decreases codes@.len() - i,
    {
        let digits = decimal_chars(codes[i] as u64);
        proof {
            assert(views.take(i + 1).drop_last() =~= views.take(i as int));
            assert(views.take(i + 1).last() == digits@);
        }
        if i > 0 {
            out.push(';');
        }
        push_all(&mut out, &digits);
        proof {
            if i == 0 {
                assert(views.take(1)[0] == digits@);
            }
            assert(out@ =~= seq![ESC, '['] + join_with(views.take(i + 1), ';'));
        }
        i = i + 1;
    }
    assert(views.take(i as int) =~= views);
    out.push('m');
    push_all(&mut out, text);
    out.push(ESC);
    out.push('[');
    out.push('0');
    out.push('m');
    proof {
        assert(out@ =~= sgr_open(style, *map) + text@ + reset_seq());
    }
    out
}

} // verus!
