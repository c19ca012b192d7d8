//! Block chrome: borders, titles and padding around a content area.

use vstd::prelude::*;

use crate::geometry::Rect;
use crate::strutil::str_eq;
use crate::style::{
    parse_color, parse_style, spec_parse_color, spec_resolve_style, Color, Style, StyleInput,
};
use crate::text::{parse_alignment, spec_alignment_of, Alignment};

verus! {

/// Which edges of a block carry a border.
#[derive(Clone, Copy, Debug, PartialEq, Eq, Structural)]
pub struct BorderMask {
    pub top: bool,
    pub bottom: bool,
    pub left: bool,
    pub right: bool,
}

impl BorderMask {
    pub open spec fn spec_none() -> BorderMask {
        BorderMask { top: false, bottom: false, left: false, right: false }
    }

    pub open spec fn spec_all() -> BorderMask {
        BorderMask { top: true, bottom: true, left: true, right: true }
    }
}

/// The eight glyphs a border is drawn with.
#[derive(Clone, Copy, Debug, PartialEq, Eq, Structural)]
pub struct BorderGlyphs {
    pub top_left: char,
    pub top_right: char,
    pub bottom_left: char,
    pub bottom_right: char,
    pub vertical_left: char,
    pub vertical_right: char,
    pub horizontal_top: char,
    pub horizontal_bottom: char,
}

/// The plain single-line set; the default.
pub open spec fn spec_plain_glyphs() -> BorderGlyphs {
    BorderGlyphs {
        top_left: '┌',
        top_right: '┐',
        bottom_left: '└',
        bottom_right: '┘',
        vertical_left: '│',
        vertical_right: '│',
        horizontal_top: '─',
        horizontal_bottom: '─',
    }
}

pub fn plain_glyphs() -> (r: BorderGlyphs)
    ensures
        r == spec_plain_glyphs(),
{
    BorderGlyphs {
        top_left: '┌',
        top_right: '┐',
        bottom_left: '└',
        bottom_right: '┘',
        vertical_left: '│',
        vertical_right: '│',
        horizontal_top: '─',
        horizontal_bottom: '─',
    }
}

/// The named glyph set a border-type token selects; unknown tokens keep
/// the plain set.
pub open spec fn spec_named_glyphs(t: Seq<char>) -> BorderGlyphs {
    if t == "rounded"@ {
        BorderGlyphs { top_left: '╭', top_right: '╮', bottom_left: '╰', bottom_right: '╯', ..spec_plain_glyphs() }
    } else if t == "double"@ {
        BorderGlyphs {
            top_left: '╔',
            top_right: '╗',
            bottom_left: '╚',
            bottom_right: '╝',
            vertical_left: '║',
            vertical_right: '║',
            horizontal_top: '═',
            horizontal_bottom: '═',
        }
    } else if t == "thick"@ {
        BorderGlyphs {
            top_left: '┏',
            top_right: '┓',
            bottom_left: '┗',
            bottom_right: '┛',
            vertical_left: '┃',
            vertical_right: '┃',
            horizontal_top: '━',
            horizontal_bottom: '━',
        }
    } else if t == "quadrant_inside"@ {
        BorderGlyphs {
            top_left: '▗',
            top_right: '▖',
            bottom_left: '▝',
            bottom_right: '▘',
            vertical_left: '▐',
            vertical_right: '▌',
            horizontal_top: '▄',
            horizontal_bottom: '▀',
        }
    } else if t == "quadrant_outside"@ {
        BorderGlyphs {
            top_left: '▛',
            top_right: '▜',
            bottom_left: '▙',
            bottom_right: '▟',
            vertical_left: '▌',
            vertical_right: '▐',
            horizontal_top: '▀',
            horizontal_bottom: '▄',
        }
    } else {
        spec_plain_glyphs()
    }
}

fn named_glyphs(t: &str) -> (r: BorderGlyphs)
    ensures
        r == spec_named_glyphs(t@),
{
    if str_eq(t, "rounded") {
        BorderGlyphs { top_left: '╭', top_right: '╮', bottom_left: '╰', bottom_right: '╯', ..plain_glyphs() }
    } else if str_eq(t, "double") {
        BorderGlyphs {
            top_left: '╔',
            top_right: '╗',
            bottom_left: '╚',
            bottom_right: '╝',
            vertical_left: '║',
            vertical_right: '║',
            horizontal_top: '═',
            horizontal_bottom: '═',
        }
    } else if str_eq(t, "thick") {
        BorderGlyphs {
            top_left: '┏',
            top_right: '┓',
            bottom_left: '┗',
            bottom_right: '┛',
            vertical_left: '┃',
            vertical_right: '┃',
            horizontal_top: '━',
            horizontal_bottom: '━',
        }
    } else if str_eq(t, "quadrant_inside") {
        BorderGlyphs {
            top_left: '▗',
            top_right: '▖',
            bottom_left: '▝',
            bottom_right: '▘',
            vertical_left: '▐',
            vertical_right: '▌',
            horizontal_top: '▄',
            horizontal_bottom: '▀',
        }
    } else if str_eq(t, "quadrant_outside") {
        BorderGlyphs {
            top_left: '▛',
            top_right: '▜',
            bottom_left: '▙',
            bottom_right: '▟',
            vertical_left: '▌',
            vertical_right: '▐',
            horizontal_top: '▀',
            horizontal_bottom: '▄',
        }
    } else {
        plain_glyphs()
    }
}

/// Padding between the border and the content, per side.
#[derive(Clone, Copy, Debug, PartialEq, Eq, Structural)]
pub struct Padding {
    pub left: u16,
    pub right: u16,
    pub top: u16,
    pub bottom: u16,
}

impl Padding {
    pub open spec fn spec_zero() -> Padding {
        Padding { left: 0, right: 0, top: 0, bottom: 0 }
    }
}

/// One title of a block.
#[derive(Clone, Debug)]
pub struct Title {
    pub content: String,
    pub alignment: Alignment,
    /// On the bottom edge instead of the top one.
    pub bottom: bool,
    pub style: Style,
}

/// A block's resolved chrome.
#[derive(Clone, Debug)]
pub struct BlockSpec {
    pub style: Style,
    pub border_style: Style,
    pub borders: BorderMask,
    pub glyphs: BorderGlyphs,
    pub padding: Padding,
    pub titles: Vec<Title>,
}

impl BlockSpec {
    /// The default block: no borders, no titles, no padding.
    pub fn new_default() -> (r: BlockSpec)
        ensures
            r.style == Style::spec_default(),
            r.border_style == Style::spec_default(),
            r.borders == BorderMask::spec_none(),
            r.glyphs == spec_plain_glyphs(),
            r.padding == Padding::spec_zero(),
            r.titles@.len() == 0,
    {
        BlockSpec {
            style: Style::new_default(),
            border_style: Style::new_default(),
            borders: BorderMask { top: false, bottom: false, left: false, right: false },
            glyphs: plain_glyphs(),
            padding: Padding { left: 0, right: 0, top: 0, bottom: 0 },
            titles: Vec::new(),
        }
    }

    /// Is any title placed on the given edge?
    pub open spec fn spec_has_title(self, bottom: bool) -> bool {
        exists|i: int| 0 <= i < self.titles@.len() && self.titles@[i].bottom == bottom
    }

    fn has_title(&self, bottom: bool) -> (r: bool)
        ensures
            r == self.spec_has_title(bottom),
    {
        let mut i: usize = 0;
        while i < self.titles.len()
            invariant
                i <= self.titles@.len(),
                forall|j: int| 0 <= j < i ==> self.titles@[j].bottom != bottom,
            decreases self.titles@.len() - i,
        {
            if self.titles[i].bottom == bottom {
                return true;
            }
            i = i + 1;
        }
        false
    }

    /// How many cells the chrome takes from each edge: one for an edge
    /// with a border (or, top and bottom, with a title), plus the
    /// padding.
    pub open spec fn spec_inset_left(self) -> int {
        (if self.borders.left {
            1int
        } else {
            0
        }) + self.padding.left
    }

    pub open spec fn spec_inset_right(self) -> int {
        (if self.borders.right {
            1int
        } else {
            0
        }) + self.padding.right
    }

    pub open spec fn spec_inset_top(self) -> int {
        (if self.borders.top || self.spec_has_title(false) {
            1int
        } else {
            0
        }) + self.padding.top
    }

    pub open spec fn spec_inset_bottom(self) -> int {
        (if self.borders.bottom || self.spec_has_title(true) {
            1int
        } else {
            0
        }) + self.padding.bottom
    }

    /// The content rectangle left inside the chrome: each edge moves in
    /// by its inset, and a dimension exhausts at zero.
    pub open spec fn spec_inner(self, area: Rect) -> Rect {
        let lx = crate::layout::min_int(self.spec_inset_left(), area.width as int);
        let ty = crate::layout::min_int(self.spec_inset_top(), area.height as int);
        let w = if area.width - lx - self.spec_inset_right() >= 0 {
            area.width - lx - self.spec_inset_right()
        } else {
            0
        };
        let h = if area.height - ty - self.spec_inset_bottom() >= 0 {
            area.height - ty - self.spec_inset_bottom()
        } else {
            0
        };
        Rect { x: (area.x + lx) as u16, y: (area.y + ty) as u16, width: w as u16, height: h as u16 }
    }

    /// Computes the content rectangle inside the chrome.
    pub fn inner(&self, area: Rect) -> (r: Rect)
        requires
            area.spec_right() <= 0xffff,
            area.spec_bottom() <= 0xffff,
        ensures
            r == self.spec_inner(area),
            r.spec_within(area),
    {
        let left_border: u32 = if self.borders.left {
            1
        } else {
            0
        };
        let right_border: u32 = if self.borders.right {
            1
        } else {
            0
        };
        let top_border: u32 = if self.borders.top || self.has_title(false) {
            1
        } else {
            0
        };
        let bottom_border: u32 = if self.borders.bottom || self.has_title(true) {
            1
        } else {
            0
        };
        let inset_l: u32 = left_border + self.padding.left as u32;
        let inset_r: u32 = right_border + self.padding.right as u32;
        let inset_t: u32 = top_border + self.padding.top as u32;
        let inset_b: u32 = bottom_border + self.padding.bottom as u32;
        let lx: u32 = if inset_l <= area.width as u32 {
            inset_l
        } else {
            area.width as u32
        };
        let ty: u32 = if inset_t <= area.height as u32 {
            inset_t
        } else {
            area.height as u32
        };
        let rem_w: u32 = area.width as u32 - lx;
        let rem_h: u32 = area.height as u32 - ty;
        let w: u32 = if rem_w >= inset_r {
            rem_w - inset_r
        } else {
            0
        };
        let h: u32 = if rem_h >= inset_b {
            rem_h - inset_b
        } else {
            0
        };
        Rect {
            x: (area.x as u32 + lx) as u16,
            y: (area.y as u32 + ty) as u16,
            width: w as u16,
            height: h as u16,
        }
    }
}

impl BlockSpec {
    /// The rows the chrome takes above and below the content.
    pub fn vertical_space(&self) -> (r: (u32, u32))
        ensures
            r.0 == self.spec_inset_top(),
            r.1 == self.spec_inset_bottom(),
    {
        let top: u32 = (if self.borders.top || self.has_title(false) {
            1u32
        } else {
            0
        }) + self.padding.top as u32;
        let bottom: u32 = (if self.borders.bottom || self.has_title(true) {
            1u32
        } else {
            0
        }) + self.padding.bottom as u32;
        (top, bottom)
    }

    /// The columns the chrome takes left and right of the content.
    pub fn horizontal_space(&self) -> (r: (u32, u32))
        ensures
            r.0 == self.spec_inset_left(),
            r.1 == self.spec_inset_right(),
    {
        let left: u32 = (if self.borders.left {
            1u32
        } else {
            0
        }) + self.padding.left as u32;
        let right: u32 = (if self.borders.right {
            1u32
        } else {
            0
        }) + self.padding.right as u32;
        (left, right)
    }
}

/// The border edges a descriptor names.
#[derive(Clone, Debug)]
pub enum BordersInput {
    /// One token: `all`, `top`, `bottom`, `left` or `right`.
    Token(String),
    /// A list of such tokens, united.
    List(Vec<String>),
}

/// The mask one border token adds.
pub open spec fn spec_border_token(t: Seq<char>) -> BorderMask {
    if t == "all"@ {
        BorderMask::spec_all()
    } else if t == "top"@ {
        BorderMask { top: true, ..BorderMask::spec_none() }
    } else if t == "bottom"@ {
        BorderMask { bottom: true, ..BorderMask::spec_none() }
    } else if t == "left"@ {
        BorderMask { left: true, ..BorderMask::spec_none() }
    } else if t == "right"@ {
        BorderMask { right: true, ..BorderMask::spec_none() }
    } else {
        BorderMask::spec_none()
    }
}

fn border_token(t: &str) -> (r: BorderMask)
    ensures
        r == spec_border_token(t@),
{
    if str_eq(t, "all") {
        BorderMask { top: true, bottom: true, left: true, right: true }
    } else if str_eq(t, "top") {
        BorderMask { top: true, bottom: false, left: false, right: false }
    } else if str_eq(t, "bottom") {
        BorderMask { top: false, bottom: true, left: false, right: false }
    } else if str_eq(t, "left") {
        BorderMask { top: false, bottom: false, left: true, right: false }
    } else if str_eq(t, "right") {
        BorderMask { top: false, bottom: false, left: false, right: true }
    } else {
        BorderMask { top: false, bottom: false, left: false, right: false }
    }
}

/// The union of the masks of a token list.
pub open spec fn spec_border_list(tokens: Seq<Seq<char>>) -> BorderMask
    decreases tokens.len(),
{
    if tokens.len() == 0 {
        BorderMask::spec_none()
    } else {
        let rest = spec_border_list(tokens.drop_last());
        let m = spec_border_token(tokens.last());
        BorderMask {
            top: rest.top || m.top,
            bottom: rest.bottom || m.bottom,
            left: rest.left || m.left,
            right: rest.right || m.right,
        }
    }
}

/// The mask a whole borders descriptor resolves to; absent means no
/// borders.
pub open spec fn spec_borders_of(input: Option<BordersInput>) -> BorderMask {
    match input {
        Option::None => BorderMask::spec_none(),
        Option::Some(BordersInput::Token(t)) => spec_border_token(t@),
        Option::Some(BordersInput::List(v)) => spec_border_list(
            v@.map_values(|t: String| t@),
        ),
    }
}

fn parse_borders(input: &Option<BordersInput>) -> (r: BorderMask)
    ensures
        r == spec_borders_of(*input),
{
    match input {
        Option::None => BorderMask { top: false, bottom: false, left: false, right: false },
        Option::Some(BordersInput::Token(t)) => border_token(t.as_str()),
        Option::Some(BordersInput::List(v)) => {
            let ghost toks = v@.map_values(|t: String| t@);
            let mut mask = BorderMask { top: false, bottom: false, left: false, right: false };
            let mut i: usize = 0;
            while i < v.len()
                invariant
                    i <= v@.len(),
                    toks == v@.map_values(|t: String| t@),
                    mask == spec_border_list(toks.subrange(0, i as int)),
                decreases v@.len() - i,
            {
                let m = border_token(v[i].as_str());
                mask = BorderMask {
                    top: mask.top || m.top,
                    bottom: mask.bottom || m.bottom,
                    left: mask.left || m.left,
                    right: mask.right || m.right,
                };
                proof {
                    let pre = toks.subrange(0, i as int + 1);
                    assert(pre.drop_last() =~= toks.subrange(0, i as int));
                    assert(pre.last() == toks[i as int]);
                }
                i = i + 1;
            }
            proof {
                assert(toks.subrange(0, toks.len() as int) =~= toks);
            }
            mask
        },
    }
}

/// A fully custom glyph override, each position optional.
#[derive(Clone, Debug)]
pub struct BorderSetInput {
    pub top_left: Option<char>,
    pub top_right: Option<char>,
    pub bottom_left: Option<char>,
    pub bottom_right: Option<char>,
    pub vertical_left: Option<char>,
    pub vertical_right: Option<char>,
    pub horizontal_top: Option<char>,
    pub horizontal_bottom: Option<char>,
}

/// The custom set laid over the plain glyphs.
pub open spec fn spec_custom_glyphs(s: BorderSetInput) -> BorderGlyphs {
    let base = spec_plain_glyphs();
    BorderGlyphs {
        top_left: match s.top_left {
            Option::Some(c) => c,
            Option::None => base.top_left,
        },
        top_right: match s.top_right {
            Option::Some(c) => c,
            Option::None => base.top_right,
        },
        bottom_left: match s.bottom_left {
            Option::Some(c) => c,
            Option::None => base.bottom_left,
        },
        bottom_right: match s.bottom_right {
            Option::Some(c) => c,
            Option::None => base.bottom_right,
        },
        vertical_left: match s.vertical_left {
            Option::Some(c) => c,
            Option::None => base.vertical_left,
        },
        vertical_right: match s.vertical_right {
            Option::Some(c) => c,
            Option::None => base.vertical_right,
        },
        horizontal_top: match s.horizontal_top {
            Option::Some(c) => c,
            Option::None => base.horizontal_top,
        },
        horizontal_bottom: match s.horizontal_bottom {
            Option::Some(c) => c,
            Option::None => base.horizontal_bottom,
        },
    }
}

/// Parses a custom glyph set: the overridden positions over the plain
/// set.
pub fn parse_border_set(s: &BorderSetInput) -> (r: BorderGlyphs)
    ensures
        r == spec_custom_glyphs(*s),
{
    let base = plain_glyphs();
    BorderGlyphs {
        top_left: match s.top_left {
            Option::Some(c) => c,
            Option::None => base.top_left,
        },
        top_right: match s.top_right {
            Option::Some(c) => c,
            Option::None => base.top_right,
        },
        bottom_left: match s.bottom_left {
            Option::Some(c) => c,
            Option::None => base.bottom_left,
        },
        bottom_right: match s.bottom_right {
            Option::Some(c) => c,
            Option::None => base.bottom_right,
        },
        vertical_left: match s.vertical_left {
            Option::Some(c) => c,
            Option::None => base.vertical_left,
        },
        vertical_right: match s.vertical_right {
            Option::Some(c) => c,
            Option::None => base.vertical_right,
        },
        horizontal_top: match s.horizontal_top {
            Option::Some(c) => c,
            Option::None => base.horizontal_top,
        },
        horizontal_bottom: match s.horizontal_bottom {
            Option::Some(c) => c,
            Option::None => base.horizontal_bottom,
        },
    }
}

/// A padding descriptor: one uniform value, or left, right, top,
/// bottom.
#[derive(Clone, Copy, Debug, PartialEq, Eq, Structural)]
pub enum PaddingInput {
    Uniform(u16),
    Sides(u16, u16, u16, u16),
}

/// One title entry of a block descriptor: bare text, or a record with
/// alignment, position and style.
#[derive(Clone, Debug)]
pub struct TitleInput {
    pub content: Option<String>,
    pub alignment: Option<String>,
    /// `bottom` puts the title on the bottom edge; anything else means
    /// top.
    pub position: Option<String>,
    pub style: Option<StyleInput>,
}

/// A block descriptor as plain values.
#[derive(Clone, Debug)]
pub struct BlockInput {
    pub title: Option<String>,
    pub title_alignment: Option<String>,
    pub title_style: Option<StyleInput>,
    pub titles: Vec<TitleInput>,
    pub borders: Option<BordersInput>,
    pub border_color: Option<String>,
    pub border_style: Option<StyleInput>,
    pub border_type: Option<String>,
    pub border_set: Option<BorderSetInput>,
    pub style: Option<StyleInput>,
    pub padding: Option<PaddingInput>,
}

impl BlockInput {
    /// A descriptor with every field absent.
    pub fn new_empty() -> (r: BlockInput)
        ensures
            r.title is None,
            r.title_alignment is None,
            r.title_style is None,
            r.titles@.len() == 0,
            r.borders is None,
            r.border_color is None,
            r.border_style is None,
            r.border_type is None,
            r.border_set is None,
            r.style is None,
            r.padding is None,
    {
        BlockInput {
            title: Option::None,
            title_alignment: Option::None,
            title_style: Option::None,
            titles: Vec::new(),
            borders: Option::None,
            border_color: Option::None,
            border_style: Option::None,
            border_type: Option::None,
            border_set: Option::None,
            style: Option::None,
            padding: Option::None,
        }
    }
}

/// The border style a descriptor resolves to: an explicit border style
/// beats the legacy border colour; with neither, the default.
pub open spec fn spec_border_style_of(input: BlockInput) -> Style {
    if input.border_style is Some {
        spec_resolve_style(input.border_style)
    } else {
        match input.border_color {
            Option::Some(c) => match spec_parse_color(c@) {
                Option::Some(color) => Style {
                    fg: Option::Some(color),
                    bg: Option::None,
                    modifiers: crate::style::Modifiers::spec_empty(),
                },
                Option::None => Style::spec_default(),
            },
            Option::None => Style::spec_default(),
        }
    }
}

/// The glyphs a descriptor resolves to: an explicit custom set beats a
/// named border type; with neither, the plain set.
pub open spec fn spec_glyphs_of(input: BlockInput) -> BorderGlyphs {
    match input.border_set {
        Option::Some(s) => spec_custom_glyphs(s),
        Option::None => match input.border_type {
            Option::Some(t) => spec_named_glyphs(t@),
            Option::None => spec_plain_glyphs(),
        },
    }
}

/// The padding a descriptor resolves to.
pub open spec fn spec_padding_of(input: Option<PaddingInput>) -> Padding {
    match input {
        Option::None => Padding::spec_zero(),
        Option::Some(PaddingInput::Uniform(n)) => Padding {
            left: n,
            right: n,
            top: n,
            bottom: n,
        },
        Option::Some(PaddingInput::Sides(l, r, t, b)) => Padding {
            left: l,
            right: r,
            top: t,
            bottom: b,
        },
    }
}

/// Is a title entry placed at the bottom?
pub open spec fn spec_title_bottom(t: TitleInput) -> bool {
    match t.position {
        Option::Some(p) => p@ == "bottom"@,
        Option::None => false,
    }
}

/// Does the descriptor place any title on the given edge? The
/// single-title shorthand always sits on the top edge.
pub open spec fn spec_input_has_title(input: BlockInput, bottom: bool) -> bool {
    ||| (!bottom && input.title is Some)
    ||| exists|i: int|
        0 <= i < input.titles@.len() && spec_title_bottom(#[trigger] input.titles@[i]) == bottom
}

/// The columns the descriptor's chrome takes from the left edge.
pub open spec fn spec_input_inset_left(input: BlockInput) -> int {
    (if spec_borders_of(input.borders).left {
        1int
    } else {
        0
    }) + spec_padding_of(input.padding).left
}

/// The columns the chrome takes from the right edge.
pub open spec fn spec_input_inset_right(input: BlockInput) -> int {
    (if spec_borders_of(input.borders).right {
        1int
    } else {
        0
    }) + spec_padding_of(input.padding).right
}

/// The rows the chrome takes from the top edge: a border or a top
/// title, plus the padding.
pub open spec fn spec_input_inset_top(input: BlockInput) -> int {
    (if spec_borders_of(input.borders).top || spec_input_has_title(input, false) {
        1int
    } else {
        0
    }) + spec_padding_of(input.padding).top
}

/// The rows the chrome takes from the bottom edge.
pub open spec fn spec_input_inset_bottom(input: BlockInput) -> int {
    (if spec_borders_of(input.borders).bottom || spec_input_has_title(input, true) {
        1int
    } else {
        0
    }) + spec_padding_of(input.padding).bottom
}

/// The rows an optional chrome takes, above and below together.
pub open spec fn spec_opt_vertical_insets(block: Option<BlockInput>) -> int {
    match block {
        Option::None => 0,
        Option::Some(b) => spec_input_inset_top(b) + spec_input_inset_bottom(b),
    }
}

/// The columns an optional chrome takes, left and right together.
pub open spec fn spec_opt_horizontal_insets(block: Option<BlockInput>) -> int {
    match block {
        Option::None => 0,
        Option::Some(b) => spec_input_inset_left(b) + spec_input_inset_right(b),
    }
}

/// The content rectangle the descriptor's chrome leaves inside `area`:
/// the descriptor-level mirror of `BlockSpec::spec_inner`.
pub open spec fn spec_input_inner(input: BlockInput, area: Rect) -> Rect {
    let inset_l = spec_input_inset_left(input);
    let inset_r = spec_input_inset_right(input);
    let inset_t = spec_input_inset_top(input);
    let inset_b = spec_input_inset_bottom(input);
    let lx = crate::layout::min_int(inset_l, area.width as int);
    let ty = crate::layout::min_int(inset_t, area.height as int);
    let w = if area.width - lx - inset_r >= 0 {
        area.width - lx - inset_r
    } else {
        0
    };
    let h = if area.height - ty - inset_b >= 0 {
        area.height - ty - inset_b
    } else {
        0
    };
    Rect { x: (area.x + lx) as u16, y: (area.y + ty) as u16, width: w as u16, height: h as u16 }
}

/// The content rectangle of an optional chrome: absent chrome leaves
/// the whole area.
pub open spec fn spec_opt_inner(block: Option<BlockInput>, area: Rect) -> Rect {
    match block {
        Option::None => area,
        Option::Some(b) => spec_input_inner(b, area),
    }
}

/// Parses a block descriptor. The precedence rules are part of the
/// contract: an explicit border style beats the legacy border colour,
/// and an explicit custom glyph set beats a named border type. The
/// single-title shorthand becomes the first title, on the top edge.
pub fn parse_block(input: &BlockInput) -> (r: BlockSpec)
    ensures
        r.style == spec_resolve_style(input.style),
        r.border_style == spec_border_style_of(*input),
        r.borders == spec_borders_of(input.borders),
        r.glyphs == spec_glyphs_of(*input),
        r.padding == spec_padding_of(input.padding),
        r.titles@.len() == (if input.title is Some {
            1int
        } else {
            0
        }) + input.titles@.len(),
        input.title matches Option::Some(t) ==> r.titles@[0].content@ == t@ && r.titles@[0].bottom
            == false && r.titles@[0].alignment == spec_alignment_of(input.title_alignment)
            && r.titles@[0].style == spec_resolve_style(input.title_style),
        forall|i: int|
            0 <= i < input.titles@.len() ==> {
                let off = if input.title is Some {
                    1int
                } else {
                    0
                };
                let entry = #[trigger] input.titles@[i];
                let parsed = r.titles@[i + off];
                &&& (entry.content matches Option::Some(c) ==> parsed.content@ == c@)
                &&& (entry.content is None ==> parsed.content@ == Seq::<char>::empty())
                &&& parsed.alignment == spec_alignment_of(entry.alignment)
                &&& parsed.bottom == spec_title_bottom(entry)
                &&& parsed.style == spec_resolve_style(entry.style)
            },
        r.spec_has_title(false) == spec_input_has_title(*input, false),
        r.spec_has_title(true) == spec_input_has_title(*input, true),
        forall|a: Rect| #[trigger] r.spec_inner(a) == spec_input_inner(*input, a),
{
    let style = parse_style(&input.style);
    let border_style: Style = match &input.border_style {
        Option::Some(_) => parse_style(&input.border_style),
        Option::None => {
            match &input.border_color {
                Option::Some(c) => {
                    match parse_color(c.as_str()) {
                        Option::Some(color) => Style {
                            fg: Option::Some(color),
                            bg: Option::None,
                            modifiers: crate::style::Modifiers::empty(),
                        },
                        Option::None => Style::new_default(),
                    }
                },
                Option::None => Style::new_default(),
            }
        },
    };
    let borders = parse_borders(&input.borders);
    let glyphs: BorderGlyphs = match &input.border_set {
        Option::Some(s) => parse_border_set(s),
        Option::None => {
            match &input.border_type {
                Option::Some(t) => named_glyphs(t.as_str()),
                Option::None => plain_glyphs(),
            }
        },
    };
    let padding: Padding = match input.padding {
        Option::None => Padding { left: 0, right: 0, top: 0, bottom: 0 },
        Option::Some(PaddingInput::Uniform(n)) => Padding {
            left: n,
            right: n,
            top: n,
            bottom: n,
        },
        Option::Some(PaddingInput::Sides(l, r, t, b)) => Padding {
            left: l,
            right: r,
            top: t,
            bottom: b,
        },
    };
    let mut titles: Vec<Title> = Vec::new();
    match &input.title {
        Option::Some(t) => {
            titles.push(
                Title {
                    content: t.clone(),
                    alignment: parse_alignment(&input.title_alignment),
                    bottom: false,
                    style: parse_style(&input.title_style),
                },
            );
        },
        Option::None => {},
    }
    let ghost off: int = if input.title is Some {
        1int
    } else {
        0
    };
    let mut i: usize = 0;
    while i < input.titles.len()
        invariant
            i <= input.titles@.len(),
            titles@.len() == off + i,
            off == (if input.title is Some {
                1int
            } else {
                0
            }),
            input.title matches Option::Some(t) ==> titles@[0].content@ == t@ && titles@[0].bottom
                == false && titles@[0].alignment == spec_alignment_of(input.title_alignment)
                && titles@[0].style == spec_resolve_style(input.title_style),
            forall|j: int|
                0 <= j < i ==> {
                    let entry = #[trigger] input.titles@[j];
                    let parsed = titles@[j + off];
                    &&& (entry.content matches Option::Some(c) ==> parsed.content@ == c@)
                    &&& (entry.content is None ==> parsed.content@ == Seq::<char>::empty())
                    &&& parsed.alignment == spec_alignment_of(entry.alignment)
                    &&& parsed.bottom == spec_title_bottom(entry)
                    &&& parsed.style == spec_resolve_style(entry.style)
                },
        decreases input.titles@.len() - i,
    {
        let entry = &input.titles[i];
        let content: String = match &entry.content {
            Option::Some(c) => c.clone(),
            Option::None => String::new(),
        };
        let bottom: bool = match &entry.position {
            Option::Some(p) => str_eq(p.as_str(), "bottom"),
            Option::None => false,
        };
        titles.push(
            Title {
                content,
                alignment: parse_alignment(&entry.alignment),
                bottom,
                style: parse_style(&entry.style),
            },
        );
        i = i + 1;
    }
    let r = BlockSpec { style, border_style, borders, glyphs, padding, titles };
    proof {
        let n_in = input.titles@.len() as int;
        // Each edge holds a parsed title exactly when the descriptor
        // asked for one there.
        assert forall|b: bool| #[trigger] r.spec_has_title(b) == spec_input_has_title(
            *input,
            b,
        ) by {
            if r.spec_has_title(b) {
                let j = choose|j: int|
                    0 <= j < r.titles@.len() && r.titles@[j].bottom == b;
                if input.title is Some && j == 0 {
                    assert(!b);
                } else {
                    let k = j - off;
                    assert(spec_title_bottom(input.titles@[k]) == b);
                }
            }
            if spec_input_has_title(*input, b) {
                if !b && input.title is Some {
                    assert(r.titles@[0].bottom == b);
                } else {
                    let k = choose|k: int|
                        0 <= k < n_in && spec_title_bottom(#[trigger] input.titles@[k]) == b;
                    assert(r.titles@[k + off].bottom == b);
                }
            }
        }
    }
    r
}

} // verus!
