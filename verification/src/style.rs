//! The style resolver: colour, modifier and style descriptors parsed into
//! renderer-ready values.
//!
//! Unrecognised colour and modifier tokens are dropped silently: a missing
//! style component is a cosmetic issue, not an error, and rendering goes
//! on. That best-effort policy matches how terminal tooling usually
//! degrades.

use vstd::prelude::*;

use crate::strutil::{chars_eq_str, chars_to_string, str_eq};

verus! {

/// A terminal colour.
#[derive(Clone, Copy, Debug, PartialEq, Eq, Structural)]
pub enum Color {
    /// The terminal's default colour.
    Reset,
    Black,
    Red,
    Green,
    Yellow,
    Blue,
    Magenta,
    Cyan,
    Gray,
    DarkGray,
    LightRed,
    LightGreen,
    LightYellow,
    LightBlue,
    LightMagenta,
    LightCyan,
    White,
    /// A 24-bit colour.
    Rgb(u8, u8, u8),
    /// An entry of the 256-colour palette.
    Indexed(u8),
}

/// The set of text modifiers of a style or a cell.
#[derive(Clone, Copy, Debug, PartialEq, Eq, Structural)]
pub struct Modifiers {
    pub bold: bool,
    pub italic: bool,
    pub dim: bool,
    pub reversed: bool,
    pub underlined: bool,
    pub slow_blink: bool,
    pub rapid_blink: bool,
    pub crossed_out: bool,
    pub hidden: bool,
}

impl Modifiers {
    /// No modifier set.
    pub open spec fn spec_empty() -> Modifiers {
        Modifiers {
            bold: false,
            italic: false,
            dim: false,
            reversed: false,
            underlined: false,
            slow_blink: false,
            rapid_blink: false,
            crossed_out: false,
            hidden: false,
        }
    }

    pub fn empty() -> (r: Modifiers)
        ensures
            r == Modifiers::spec_empty(),
    {
        Modifiers {
            bold: false,
            italic: false,
            dim: false,
            reversed: false,
            underlined: false,
            slow_blink: false,
            rapid_blink: false,
            crossed_out: false,
            hidden: false,
        }
    }

    /// The union of two modifier sets.
    pub open spec fn spec_union(self, other: Modifiers) -> Modifiers {
        Modifiers {
            bold: self.bold || other.bold,
            italic: self.italic || other.italic,
            dim: self.dim || other.dim,
            reversed: self.reversed || other.reversed,
            underlined: self.underlined || other.underlined,
            slow_blink: self.slow_blink || other.slow_blink,
            rapid_blink: self.rapid_blink || other.rapid_blink,
            crossed_out: self.crossed_out || other.crossed_out,
            hidden: self.hidden || other.hidden,
        }
    }

    pub fn union(self, other: Modifiers) -> (r: Modifiers)
        ensures
            r == self.spec_union(other),
    {
        Modifiers {
            bold: self.bold || other.bold,
            italic: self.italic || other.italic,
            dim: self.dim || other.dim,
            reversed: self.reversed || other.reversed,
            underlined: self.underlined || other.underlined,
            slow_blink: self.slow_blink || other.slow_blink,
            rapid_blink: self.rapid_blink || other.rapid_blink,
            crossed_out: self.crossed_out || other.crossed_out,
            hidden: self.hidden || other.hidden,
        }
    }
}

/// A style: optional foreground, optional background, modifiers. Styles
/// compose by later-wins override at the point of use.
#[derive(Clone, Copy, Debug, PartialEq, Eq, Structural)]
pub struct Style {
    pub fg: Option<Color>,
    pub bg: Option<Color>,
    pub modifiers: Modifiers,
}

impl Style {
    /// The style that changes nothing.
    pub open spec fn spec_default() -> Style {
        Style { fg: Option::None, bg: Option::None, modifiers: Modifiers::spec_empty() }
    }

    pub fn new_default() -> (r: Style)
        ensures
            r == Style::spec_default(),
    {
        Style { fg: Option::None, bg: Option::None, modifiers: Modifiers::empty() }
    }

    /// `other` layered over `self`: later wins where `other` says
    /// anything, and modifiers accumulate.
    pub open spec fn spec_patch(self, other: Style) -> Style {
        Style {
            fg: if other.fg is Some {
                other.fg
            } else {
                self.fg
            },
            bg: if other.bg is Some {
                other.bg
            } else {
                self.bg
            },
            modifiers: self.modifiers.spec_union(other.modifiers),
        }
    }

    pub fn patch(self, other: Style) -> (r: Style)
        ensures
            r == self.spec_patch(other),
    {
        Style {
            fg: if other.fg.is_some() {
                other.fg
            } else {
                self.fg
            },
            bg: if other.bg.is_some() {
                other.bg
            } else {
                self.bg
            },
            modifiers: self.modifiers.union(other.modifiers),
        }
    }
}

/// ASCII lower-casing of one character; other characters pass through.
pub open spec fn spec_lower_char(c: char) -> char {
    if 'A' <= c && c <= 'Z' {
        ((c as u8) + 32) as char
    } else {
        c
    }
}

/// Is the character dropped by colour-token normalisation?
pub open spec fn spec_is_separator(c: char) -> bool {
    c == ' ' || c == '-' || c == '_'
}

/// Colour tokens are matched case-insensitively with spaces, dashes and
/// underscores removed.
pub open spec fn spec_normalized(s: Seq<char>) -> Seq<char>
    decreases s.len(),
{
    if s.len() == 0 {
        Seq::empty()
    } else {
        let rest = spec_normalized(s.drop_last());
        let c = spec_lower_char(s.last());
        if spec_is_separator(c) {
            rest
        } else {
            rest.push(c)
        }
    }
}

/// The numeric value of a decimal digit run starting with `acc`;
/// `None` on a non-digit or once the value leaves the palette range.
pub open spec fn spec_digits_value(s: Seq<char>, i: int, acc: int) -> Option<int>
    decreases s.len() - i,
{
    if i < 0 || i >= s.len() {
        Option::Some(acc)
    } else if !('0' <= s[i] && s[i] <= '9') {
        Option::None
    } else {
        let acc2 = acc * 10 + (s[i] as int - '0' as int);
        if acc2 > 255 {
            Option::None
        } else {
            spec_digits_value(s, i + 1, acc2)
        }
    }
}

/// A palette index written in decimal.
pub open spec fn spec_parse_index(s: Seq<char>) -> Option<int> {
    if s.len() == 0 {
        Option::None
    } else {
        spec_digits_value(s, 0, 0)
    }
}

/// The value of one hexadecimal digit, or `None`.
pub open spec fn spec_hex_digit(c: char) -> Option<int> {
    if '0' <= c && c <= '9' {
        Option::Some(c as int - '0' as int)
    } else if 'a' <= c && c <= 'f' {
        Option::Some(c as int - 'a' as int + 10)
    } else if 'A' <= c && c <= 'F' {
        Option::Some(c as int - 'A' as int + 10)
    } else {
        Option::None
    }
}

pub open spec fn spec_is_hex_color(s: Seq<char>) -> bool {
    &&& s.len() == 7
    &&& s[0] == '#'
    &&& forall|i: int| 1 <= i < 7 ==> #[trigger] spec_hex_digit(s[i]) is Some
}

pub open spec fn spec_hex_byte(s: Seq<char>, i: int) -> int {
    spec_hex_digit(s[i])->0 * 16 + spec_hex_digit(s[i + 1])->0
}

/// What a colour descriptor means: a named token (normalised), then a
/// palette index, then `#rrggbb`; anything else is no colour.
pub open spec fn spec_parse_color(s: Seq<char>) -> Option<Color> {
    let n = spec_normalized(s);
    if n == "reset"@ {
        Option::Some(Color::Reset)
    } else if n == "black"@ {
        Option::Some(Color::Black)
    } else if n == "red"@ {
        Option::Some(Color::Red)
    } else if n == "green"@ {
        Option::Some(Color::Green)
    } else if n == "yellow"@ {
        Option::Some(Color::Yellow)
    } else if n == "blue"@ {
        Option::Some(Color::Blue)
    } else if n == "magenta"@ {
        Option::Some(Color::Magenta)
    } else if n == "cyan"@ {
        Option::Some(Color::Cyan)
    } else if n == "gray"@ {
        Option::Some(Color::Gray)
    } else if n == "darkgray"@ {
        Option::Some(Color::DarkGray)
    } else if n == "lightred"@ {
        Option::Some(Color::LightRed)
    } else if n == "lightgreen"@ {
        Option::Some(Color::LightGreen)
    } else if n == "lightyellow"@ {
        Option::Some(Color::LightYellow)
    } else if n == "lightblue"@ {
        Option::Some(Color::LightBlue)
    } else if n == "lightmagenta"@ {
        Option::Some(Color::LightMagenta)
    } else if n == "lightcyan"@ {
        Option::Some(Color::LightCyan)
    } else if n == "white"@ {
        Option::Some(Color::White)
    } else if spec_parse_index(s) is Some {
        Option::Some(Color::Indexed(spec_parse_index(s)->0 as u8))
    } else if spec_is_hex_color(s) {
        Option::Some(
            Color::Rgb(
                spec_hex_byte(s, 1) as u8,
                spec_hex_byte(s, 3) as u8,
                spec_hex_byte(s, 5) as u8,
            ),
        )
    } else {
        Option::None
    }
}

/// Normalises a colour token: ASCII lower case, separators removed.
fn normalize_token(s: &str) -> (r: Vec<char>)
    ensures
        r@ == spec_normalized(s@),
{
    let len = s.unicode_len();
    let mut out: Vec<char> = Vec::new();
    let mut i: usize = 0;
    while i < len
        invariant
            len == s@.len(),
            i <= len,
            out@ == spec_normalized(s@.subrange(0, i as int)),
        decreases len - i,
    {
        let c = s.get_char(i);
        let lc: char = if 'A' <= c && c <= 'Z' {
            ((c as u8) + 32) as char
        } else {
            c
        };
        if !(lc == ' ' || lc == '-' || lc == '_') {
            out.push(lc);
        }
        proof {
            let pre = s@.subrange(0, i as int + 1);
            assert(pre.drop_last() =~= s@.subrange(0, i as int));
            assert(pre.last() == s@[i as int]);
        }
        i = i + 1;
    }
    proof {
        assert(s@.subrange(0, s@.len() as int) =~= s@);
    }
    out
}

/// Parses a colour descriptor; unrecognised tokens give `None`.
pub fn parse_color(color_str: &str) -> (r: Option<Color>)
    ensures
        r == spec_parse_color(color_str@),
{
    let n = normalize_token(color_str);
    if chars_eq_str(&n, "reset") {
        Option::Some(Color::Reset)
    } else if chars_eq_str(&n, "black") {
        Option::Some(Color::Black)
    } else if chars_eq_str(&n, "red") {
        Option::Some(Color::Red)
    } else if chars_eq_str(&n, "green") {
        Option::Some(Color::Green)
    } else if chars_eq_str(&n, "yellow") {
        Option::Some(Color::Yellow)
    } else if chars_eq_str(&n, "blue") {
        Option::Some(Color::Blue)
    } else if chars_eq_str(&n, "magenta") {
        Option::Some(Color::Magenta)
    } else if chars_eq_str(&n, "cyan") {
        Option::Some(Color::Cyan)
    } else if chars_eq_str(&n, "gray") {
        Option::Some(Color::Gray)
    } else if chars_eq_str(&n, "darkgray") {
        Option::Some(Color::DarkGray)
    } else if chars_eq_str(&n, "lightred") {
        Option::Some(Color::LightRed)
    } else if chars_eq_str(&n, "lightgreen") {
        Option::Some(Color::LightGreen)
    } else if chars_eq_str(&n, "lightyellow") {
        Option::Some(Color::LightYellow)
    } else if chars_eq_str(&n, "lightblue") {
        Option::Some(Color::LightBlue)
    } else if chars_eq_str(&n, "lightmagenta") {
        Option::Some(Color::LightMagenta)
    } else if chars_eq_str(&n, "lightcyan") {
        Option::Some(Color::LightCyan)
    } else if chars_eq_str(&n, "white") {
        Option::Some(Color::White)
    } else if let Option::Some(idx) = parse_index(color_str) {
        Option::Some(Color::Indexed(idx))
    } else if let Option::Some((r, g, b)) = parse_hex(color_str) {
        Option::Some(Color::Rgb(r, g, b))
    } else {
        Option::None
    }
}

/// Parses a decimal palette index in `0..=255`.
fn parse_index(s: &str) -> (r: Option<u8>)
    ensures
        r is Some ==> spec_parse_index(s@) == Option::Some(r->0 as int),
        r is None ==> spec_parse_index(s@) is None,
{
    let len = s.unicode_len();
    if len == 0 {
        return Option::None;
    }
    let mut acc: u16 = 0;
    let mut i: usize = 0;
    while i < len
        invariant
            len == s@.len(),
            0 < len,
            i <= len,
            acc <= 255,
            spec_digits_value(s@, 0, 0) == spec_digits_value(s@, i as int, acc as int),
        decreases len - i,
    {
        let c = s.get_char(i);
        if !('0' <= c && c <= '9') {
            return Option::None;
        }
        let d: u16 = (c as u16) - ('0' as u16);
        let acc2: u16 = acc * 10 + d;
        if acc2 > 255 {
            return Option::None;
        }
        acc = acc2;
        i = i + 1;
    }
    Option::Some(acc as u8)
}

/// Parses the value of one hexadecimal digit.
fn hex_digit(c: char) -> (r: Option<u8>)
    ensures
        r is Some ==> spec_hex_digit(c) == Option::Some(r->0 as int),
        r is None ==> spec_hex_digit(c) is None,
{
    if '0' <= c && c <= '9' {
        Option::Some((c as u8) - ('0' as u8))
    } else if 'a' <= c && c <= 'f' {
        Option::Some((c as u8) - ('a' as u8) + 10)
    } else if 'A' <= c && c <= 'F' {
        Option::Some((c as u8) - ('A' as u8) + 10)
    } else {
        Option::None
    }
}

/// Parses a `#rrggbb` descriptor.
fn parse_hex(s: &str) -> (r: Option<(u8, u8, u8)>)
    ensures
        r matches Option::Some(t) ==> spec_is_hex_color(s@) && t.0 as int == spec_hex_byte(s@, 1)
            && t.1 as int == spec_hex_byte(s@, 3) && t.2 as int == spec_hex_byte(s@, 5),
        r is None ==> !spec_is_hex_color(s@),
{
    if s.unicode_len() != 7 {
        return Option::None;
    }
    if s.get_char(0) != '#' {
        return Option::None;
    }
    let d1 = hex_digit(s.get_char(1));
    let d2 = hex_digit(s.get_char(2));
    let d3 = hex_digit(s.get_char(3));
    let d4 = hex_digit(s.get_char(4));
    let d5 = hex_digit(s.get_char(5));
    let d6 = hex_digit(s.get_char(6));
    match (d1, d2, d3, d4, d5, d6) {
        (
            Option::Some(a),
            Option::Some(b),
            Option::Some(c),
            Option::Some(d),
            Option::Some(e),
            Option::Some(f),
        ) => {
            assert(forall|i: int| 1 <= i < 7 ==> #[trigger] spec_hex_digit(s@[i]) is Some);
            Option::Some((a * 16 + b, c * 16 + d, e * 16 + f))
        },
        _ => Option::None,
    }
}

/// Which modifier a token names, as a singleton set; unknown tokens give
/// `None`.
pub open spec fn spec_parse_modifier(s: Seq<char>) -> Option<Modifiers> {
    let none = Modifiers::spec_empty();
    if s == "bold"@ {
        Option::Some(Modifiers { bold: true, ..none })
    } else if s == "italic"@ {
        Option::Some(Modifiers { italic: true, ..none })
    } else if s == "dim"@ {
        Option::Some(Modifiers { dim: true, ..none })
    } else if s == "reversed"@ {
        Option::Some(Modifiers { reversed: true, ..none })
    } else if s == "underlined"@ {
        Option::Some(Modifiers { underlined: true, ..none })
    } else if s == "slow_blink"@ {
        Option::Some(Modifiers { slow_blink: true, ..none })
    } else if s == "rapid_blink"@ {
        Option::Some(Modifiers { rapid_blink: true, ..none })
    } else if s == "crossed_out"@ {
        Option::Some(Modifiers { crossed_out: true, ..none })
    } else if s == "hidden"@ {
        Option::Some(Modifiers { hidden: true, ..none })
    } else {
        Option::None
    }
}

/// Parses one modifier token.
pub fn parse_modifier_str(s: &str) -> (r: Option<Modifiers>)
    ensures
        r == spec_parse_modifier(s@),
{
    let none = Modifiers::empty();
    if str_eq(s, "bold") {
        Option::Some(Modifiers { bold: true, ..none })
    } else if str_eq(s, "italic") {
        Option::Some(Modifiers { italic: true, ..none })
    } else if str_eq(s, "dim") {
        Option::Some(Modifiers { dim: true, ..none })
    } else if str_eq(s, "reversed") {
        Option::Some(Modifiers { reversed: true, ..none })
    } else if str_eq(s, "underlined") {
        Option::Some(Modifiers { underlined: true, ..none })
    } else if str_eq(s, "slow_blink") {
        Option::Some(Modifiers { slow_blink: true, ..none })
    } else if str_eq(s, "rapid_blink") {
        Option::Some(Modifiers { rapid_blink: true, ..none })
    } else if str_eq(s, "crossed_out") {
        Option::Some(Modifiers { crossed_out: true, ..none })
    } else if str_eq(s, "hidden") {
        Option::Some(Modifiers { hidden: true, ..none })
    } else {
        Option::None
    }
}

/// A style descriptor as plain values: optional colour tokens and a list
/// of modifier tokens.
#[derive(Clone, Debug)]
pub struct StyleInput {
    pub fg: Option<String>,
    pub bg: Option<String>,
    pub modifiers: Vec<String>,
}

/// The union of every recognised modifier token of the list.
pub open spec fn spec_modifiers_of(tokens: Seq<Seq<char>>) -> Modifiers
    decreases tokens.len(),
{
    if tokens.len() == 0 {
        Modifiers::spec_empty()
    } else {
        let rest = spec_modifiers_of(tokens.drop_last());
        match spec_parse_modifier(tokens.last()) {
            Option::Some(m) => rest.spec_union(m),
            Option::None => rest,
        }
    }
}

/// An optional colour token, parsed; absent stays absent.
pub open spec fn spec_parse_color_value(t: Option<String>) -> Option<Color> {
    match t {
        Option::None => Option::None,
        Option::Some(s) => spec_parse_color(s@),
    }
}

/// Parses an optional colour token.
pub fn parse_color_value(t: &Option<String>) -> (r: Option<Color>)
    ensures
        r == spec_parse_color_value(*t),
{
    match t {
        Option::None => Option::None,
        Option::Some(s) => parse_color(s.as_str()),
    }
}

/// Folds a list of modifier tokens into one set, dropping unknown
/// tokens.
pub fn parse_modifier_list(tokens: &Vec<String>) -> (r: Modifiers)
    ensures
        r == spec_modifiers_of(tokens@.map_values(|t: String| t@)),
{
    let ghost toks = tokens@.map_values(|t: String| t@);
    let mut mods = Modifiers::empty();
    let mut i: usize = 0;
    while i < tokens.len()
        invariant
            i <= tokens@.len(),
            toks == tokens@.map_values(|t: String| t@),
            mods == spec_modifiers_of(toks.subrange(0, i as int)),
        decreases tokens@.len() - i,
    {
        match parse_modifier_str(tokens[i].as_str()) {
            Option::Some(m) => {
                mods = mods.union(m);
            },
            Option::None => {},
        }
        proof {
            let pre = toks.subrange(0, i as int + 1);
            assert(pre.drop_last() =~= toks.subrange(0, i as int));
            assert(pre.last() == toks[i as int]);
        }
        i = i + 1;
    }
    proof {
        assert(toks.subrange(0, toks.len() as int) =~= toks);
    }
    mods
}

/// What a whole style descriptor resolves to.
pub open spec fn spec_resolve_style(input: Option<StyleInput>) -> Style {
    match input {
        Option::None => Style::spec_default(),
        Option::Some(d) => Style {
            fg: spec_parse_color_value(d.fg),
            bg: spec_parse_color_value(d.bg),
            modifiers: spec_modifiers_of(d.modifiers@.map_values(|t: String| t@)),
        },
    }
}

/// Resolves a style descriptor. An absent descriptor is the default
/// style; unrecognised colour and modifier tokens are dropped silently.
pub fn parse_style(input: &Option<StyleInput>) -> (r: Style)
    ensures
        r == spec_resolve_style(*input),
{
    match input {
        Option::None => Style::new_default(),
        Option::Some(d) => Style {
            fg: parse_color_value(&d.fg),
            bg: parse_color_value(&d.bg),
            modifiers: parse_modifier_list(&d.modifiers),
        },
    }
}

} // verus!
