//! The content-widget renderers: paragraph, list, table and tabs, each
//! painting into the cell buffer from its own descriptor, plus the pure
//! measurement helpers a host can call without rendering.

use vstd::prelude::*;

use crate::block::{parse_block, BlockInput, BlockSpec};
use crate::buffer::Buffer;
use crate::error::BridgeError;
use crate::geometry::Rect;
use crate::layout::{parse_flex, split_layout, Constraint, Direction};
use crate::state::{spec_resolve_offset, ListState, TableState};
use crate::strutil::{chars_to_string, str_eq, vec_suffix};
use crate::style::{parse_style, Style, StyleInput};
use crate::text::{
    line_chars, parse_alignment, parse_text, Alignment, Line, TextInput,
};
use crate::width::{drop_width, min_width, str_chars, take_width, text_width};

verus! {

/// A paragraph descriptor: text, styling, wrapping, alignment and a
/// `(rows, cols)` scroll offset.
#[derive(Clone, Debug)]
pub struct ParagraphInput {
    pub text: TextInput,
    pub style: Option<StyleInput>,
    pub block: Option<BlockInput>,
    /// Wrapping cuts at glyph boundaries (not at words), exactly as
    /// `paragraph_line_count` counts.
    pub wrap: bool,
    pub alignment: Option<String>,
    pub scroll: Option<(u16, u16)>,
}

/// A list descriptor. In stateful mode the caller-retained state is
/// authoritative and `selected_index` is ignored.
#[derive(Clone, Debug)]
pub struct ListInput {
    pub items: Vec<String>,
    pub selected_index: Option<usize>,
    pub style: Option<StyleInput>,
    pub highlight_style: Option<StyleInput>,
    pub highlight_symbol: Option<String>,
    /// Repeats the symbol on every wrapped line of the selected item;
    /// items here are single lines, so the flag changes nothing.
    pub repeat_highlight_symbol: bool,
    /// `always` indents every row by the symbol width, `never` none;
    /// absent (or any other token) indents only while a selection
    /// exists.
    pub highlight_spacing: Option<String>,
    /// `top_to_bottom` (default) or `bottom_to_top`; any other token is
    /// a structural error.
    pub direction: Option<String>,
    pub scroll_padding: Option<usize>,
    pub block: Option<BlockInput>,
}

/// A table descriptor.
#[derive(Clone, Debug)]
pub struct TableInput {
    pub header: Option<Vec<String>>,
    pub footer: Option<Vec<String>>,
    pub rows: Vec<Vec<String>>,
    pub widths: Vec<Constraint>,
    pub flex: Option<String>,
    pub style: Option<StyleInput>,
    pub highlight_style: Option<StyleInput>,
    /// Painted before the selected row; other rows are indented by its
    /// width while a selection exists.
    pub highlight_symbol: Option<String>,
    pub selected_row: Option<usize>,
    pub block: Option<BlockInput>,
}

/// A tabs descriptor.
#[derive(Clone, Debug)]
pub struct TabsInput {
    pub titles: Vec<String>,
    pub selected_index: usize,
    pub divider: Option<String>,
    pub padding_left: usize,
    pub padding_right: usize,
    pub style: Option<StyleInput>,
    pub highlight_style: Option<StyleInput>,
    pub block: Option<BlockInput>,
}

/// Paints a block's chrome (style fill, borders, titles) and returns the
/// content rectangle inside it.
pub fn render_block_chrome(buf: &mut Buffer, area: Rect, spec: &BlockSpec) -> (inner: Rect)
    requires
        old(buf).wf(),
    ensures
        final(buf).wf(),
        final(buf).spec_area() == old(buf).spec_area(),
        inner == spec.spec_inner(crate::layout::spec_clip_area(area)),
        inner.spec_within(crate::layout::spec_clip_area(area)),
        // Chrome paints only inside the (clipped) area.
        crate::buffer::spec_outside_unchanged(
            old(buf).spec_cells(),
            final(buf).spec_cells(),
            old(buf).spec_area(),
            crate::layout::spec_clip_area(area),
        ),
{
    let carea = area.clip_to_coordinate_space();
    buf.style_region(carea, spec.style);
    let border_style = spec.style.patch(spec.border_style);
    if carea.width > 0 && carea.height > 0 {
        let right: u16 = carea.x + carea.width - 1;
        let bottom: u16 = carea.y + carea.height - 1;
        if spec.borders.top {
            let mut x: u16 = carea.x;
            while x <= right
                invariant
                    buf.wf(),
                    buf.spec_area() == old(buf).spec_area(),
                    carea == crate::layout::spec_clip_area(area),
                    carea.width > 0 && carea.height > 0,
                    right == carea.x + carea.width - 1,
                    carea.x <= x,
                    x <= right + 1,
                    right < 0xffff,
                    crate::buffer::spec_outside_unchanged(
                        old(buf).spec_cells(),
                        buf.spec_cells(),
                        old(buf).spec_area(),
                        carea,
                    ),
                decreases right + 1 - x,
            {
                let ghost pre = buf.spec_cells();
                buf.set_cell(x, carea.y, spec.glyphs.horizontal_top, border_style);
                proof {
                    crate::buffer::lemma_cell_write_confined(
                        pre,
                        buf.spec_cells(),
                        buf.spec_area(),
                        carea,
                        x as int,
                        carea.y as int,
                    );
                }
                x = x + 1;
            }
        }
        if spec.borders.bottom {
            let mut x: u16 = carea.x;
            while x <= right
                invariant
                    buf.wf(),
                    buf.spec_area() == old(buf).spec_area(),
                    carea == crate::layout::spec_clip_area(area),
                    carea.width > 0 && carea.height > 0,
                    right == carea.x + carea.width - 1,
                    bottom == carea.y + carea.height - 1,
                    carea.x <= x,
                    x <= right + 1,
                    right < 0xffff,
                    crate::buffer::spec_outside_unchanged(
                        old(buf).spec_cells(),
                        buf.spec_cells(),
                        old(buf).spec_area(),
                        carea,
                    ),
                decreases right + 1 - x,
            {
                let ghost pre = buf.spec_cells();
                buf.set_cell(x, bottom, spec.glyphs.horizontal_bottom, border_style);
                proof {
                    crate::buffer::lemma_cell_write_confined(
                        pre,
                        buf.spec_cells(),
                        buf.spec_area(),
                        carea,
                        x as int,
                        bottom as int,
                    );
                }
                x = x + 1;
            }
        }
        if spec.borders.left {
            let mut y: u16 = carea.y;
            while y <= bottom
                invariant
                    buf.wf(),
                    buf.spec_area() == old(buf).spec_area(),
                    carea == crate::layout::spec_clip_area(area),
                    carea.width > 0 && carea.height > 0,
                    bottom == carea.y + carea.height - 1,
                    carea.y <= y,
                    y <= bottom + 1,
                    bottom < 0xffff,
                    crate::buffer::spec_outside_unchanged(
                        old(buf).spec_cells(),
                        buf.spec_cells(),
                        old(buf).spec_area(),
                        carea,
                    ),
                decreases bottom + 1 - y,
            {
                let ghost pre = buf.spec_cells();
                buf.set_cell(carea.x, y, spec.glyphs.vertical_left, border_style);
                proof {
                    crate::buffer::lemma_cell_write_confined(
                        pre,
                        buf.spec_cells(),
                        buf.spec_area(),
                        carea,
                        carea.x as int,
                        y as int,
                    );
                }
                y = y + 1;
            }
        }
        if spec.borders.right {
            let mut y: u16 = carea.y;
            while y <= bottom
                invariant
                    buf.wf(),
                    buf.spec_area() == old(buf).spec_area(),
                    carea == crate::layout::spec_clip_area(area),
                    carea.width > 0 && carea.height > 0,
                    right == carea.x + carea.width - 1,
                    bottom == carea.y + carea.height - 1,
                    carea.y <= y,
                    y <= bottom + 1,
                    bottom < 0xffff,
                    crate::buffer::spec_outside_unchanged(
                        old(buf).spec_cells(),
                        buf.spec_cells(),
                        old(buf).spec_area(),
                        carea,
                    ),
                decreases bottom + 1 - y,
            {
                let ghost pre = buf.spec_cells();
                buf.set_cell(right, y, spec.glyphs.vertical_right, border_style);
                proof {
                    crate::buffer::lemma_cell_write_confined(
                        pre,
                        buf.spec_cells(),
                        buf.spec_area(),
                        carea,
                        right as int,
                        y as int,
                    );
                }
                y = y + 1;
            }
        }
        if spec.borders.top && spec.borders.left {
            let ghost pre = buf.spec_cells();
            buf.set_cell(carea.x, carea.y, spec.glyphs.top_left, border_style);
            proof {
                crate::buffer::lemma_cell_write_confined(
                    pre,
                    buf.spec_cells(),
                    buf.spec_area(),
                    carea,
                    carea.x as int,
                    carea.y as int,
                );
            }
        }
        if spec.borders.top && spec.borders.right {
            let ghost pre = buf.spec_cells();
            buf.set_cell(right, carea.y, spec.glyphs.top_right, border_style);
            proof {
                crate::buffer::lemma_cell_write_confined(
                    pre,
                    buf.spec_cells(),
                    buf.spec_area(),
                    carea,
                    right as int,
                    carea.y as int,
                );
            }
        }
        if spec.borders.bottom && spec.borders.left {
            let ghost pre = buf.spec_cells();
            buf.set_cell(carea.x, bottom, spec.glyphs.bottom_left, border_style);
            proof {
                crate::buffer::lemma_cell_write_confined(
                    pre,
                    buf.spec_cells(),
                    buf.spec_area(),
                    carea,
                    carea.x as int,
                    bottom as int,
                );
            }
        }
        if spec.borders.bottom && spec.borders.right {
            let ghost pre = buf.spec_cells();
            buf.set_cell(right, bottom, spec.glyphs.bottom_right, border_style);
            proof {
                crate::buffer::lemma_cell_write_confined(
                    pre,
                    buf.spec_cells(),
                    buf.spec_area(),
                    carea,
                    right as int,
                    bottom as int,
                );
            }
        }
        // Titles sit on the border rows, between the corners.
        let tx0: u16 = if spec.borders.left {
            carea.x + 1
        } else {
            carea.x
        };
        let tx1: u16 = if spec.borders.right && right > tx0 {
            right
        } else {
            right + 1
        };
        let avail: u16 = if tx1 > tx0 {
            tx1 - tx0
        } else {
            0
        };
        let mut t: usize = 0;
        while t < spec.titles.len()
            invariant
                buf.wf(),
                buf.spec_area() == old(buf).spec_area(),
                carea == crate::layout::spec_clip_area(area),
                t <= spec.titles@.len(),
                carea.spec_right() <= 0x10000,
                carea.spec_bottom() <= 0x10000,
                carea.width > 0 && carea.height > 0,
                bottom == carea.y + carea.height - 1,
                carea.x <= tx0,
                tx0 as int + avail as int <= carea.spec_right(),
                avail <= 0xffff,
                crate::buffer::spec_outside_unchanged(
                    old(buf).spec_cells(),
                    buf.spec_cells(),
                    old(buf).spec_area(),
                    carea,
                ),
            decreases spec.titles@.len() - t,
        {
            let title = &spec.titles[t];
            let chars = str_chars(title.content.as_str());
            let clipped = take_width(&chars, avail);
            let cw = text_width(chars_to_string(&clipped).as_str());
            proof {
                crate::width::lemma_take_width_bound(chars@, avail as int);
                crate::width::lemma_text_width_nonneg(clipped@);
            }
            let off: u16 = match title.alignment {
                Alignment::Left => 0,
                Alignment::Center => if (cw as u64) < avail as u64 {
                    ((avail as u64 - cw as u64) / 2) as u16
                } else {
                    0
                },
                Alignment::Right => if (cw as u64) < avail as u64 {
                    (avail as u64 - cw as u64) as u16
                } else {
                    0
                },
            };
            let ty: u16 = if title.bottom {
                bottom
            } else {
                carea.y
            };
            let text = chars_to_string(&clipped);
            let ghost pre = buf.spec_cells();
            proof {
                crate::buffer::lemma_set_string_confined(
                    buf.spec_cells(),
                    buf.spec_area(),
                    (tx0 + off) as int,
                    ty as int,
                    text@,
                    spec.style.spec_patch(title.style),
                );
            }
            buf.set_string(tx0 + off, ty, text.as_str(), spec.style.patch(title.style));
            proof {
                assert forall|i: int|
                    0 <= i < pre.len() && !carea.spec_contains(
                        crate::buffer::spec_index_coords(old(buf).spec_area(), i).0,
                        crate::buffer::spec_index_coords(old(buf).spec_area(), i).1,
                    ) implies buf.spec_cells()[i] == pre[i] by {
                    assert(!(crate::buffer::spec_index_coords(old(buf).spec_area(), i).1
                        == ty as int && tx0 + off <= crate::buffer::spec_index_coords(
                        old(buf).spec_area(),
                        i,
                    ).0 < tx0 + off + crate::width::spec_text_width(text@)));
                }
            }
            t = t + 1;
        }
    }
    spec.inner(carea)
}

/// Chains one row-bounded write into a painter's modifies clause.
proof fn lemma_row_write_confined(
    old_cells: Seq<crate::buffer::Cell>,
    mid: Seq<crate::buffer::Cell>,
    newc: Seq<crate::buffer::Cell>,
    buf_area: Rect,
    region: Rect,
    x: int,
    y: int,
    right: int,
)
    requires
        mid.len() == old_cells.len(),
        newc.len() == mid.len(),
        crate::buffer::spec_outside_unchanged(old_cells, mid, buf_area, region),
        forall|i: int|
            0 <= i < mid.len() && !(crate::buffer::spec_index_coords(buf_area, i).1 == y && x
                <= crate::buffer::spec_index_coords(buf_area, i).0 < right) ==> newc[i] == mid[i],
        region.y <= y < region.spec_bottom(),
        region.x <= x,
        right <= region.spec_right(),
    ensures
        crate::buffer::spec_outside_unchanged(old_cells, newc, buf_area, region),
{
    assert forall|i: int|
        0 <= i < old_cells.len() && !region.spec_contains(
            crate::buffer::spec_index_coords(buf_area, i).0,
            crate::buffer::spec_index_coords(buf_area, i).1,
        ) implies newc[i] == old_cells[i] by {
        assert(!(crate::buffer::spec_index_coords(buf_area, i).1 == y && x
            <= crate::buffer::spec_index_coords(buf_area, i).0 < right));
    }
}

/// Chains a rectangle-bounded write (a style fill or a clear) into a
/// painter's modifies clause.
pub(crate) proof fn lemma_region_write_confined(
    old_cells: Seq<crate::buffer::Cell>,
    mid: Seq<crate::buffer::Cell>,
    newc: Seq<crate::buffer::Cell>,
    buf_area: Rect,
    region: Rect,
    target: Rect,
)
    requires
        mid.len() == old_cells.len(),
        newc.len() == mid.len(),
        crate::buffer::spec_outside_unchanged(old_cells, mid, buf_area, region),
        forall|i: int|
            0 <= i < mid.len() && !target.spec_contains(
                crate::buffer::spec_index_coords(buf_area, i).0,
                crate::buffer::spec_index_coords(buf_area, i).1,
            ) ==> newc[i] == mid[i],
        target.spec_within(region),
    ensures
        crate::buffer::spec_outside_unchanged(old_cells, newc, buf_area, region),
{
    assert forall|i: int|
        0 <= i < old_cells.len() && !region.spec_contains(
            crate::buffer::spec_index_coords(buf_area, i).0,
            crate::buffer::spec_index_coords(buf_area, i).1,
        ) implies newc[i] == old_cells[i] by {
        assert(!target.spec_contains(
            crate::buffer::spec_index_coords(buf_area, i).0,
            crate::buffer::spec_index_coords(buf_area, i).1,
        ));
    }
}

/// Paints one run of characters, truncated to the columns between
/// `x` and `right_edge`, returning the width painted.
fn paint_clipped(buf: &mut Buffer, x: u16, y: u16, right_edge: u16, chars: &Vec<char>, style: Style) -> (w:
    u16)
    requires
        old(buf).wf(),
    ensures
        final(buf).wf(),
        final(buf).spec_area() == old(buf).spec_area(),
        w <= (if right_edge >= x {
            right_edge - x
        } else {
            0
        }),
        // Only the cells of row `y` between `x` and `right_edge` change.
        forall|i: int|
            0 <= i < old(buf).spec_cells().len() && !(crate::buffer::spec_index_coords(
                old(buf).spec_area(),
                i,
            ).1 == y && x <= crate::buffer::spec_index_coords(old(buf).spec_area(), i).0
                < right_edge) ==> final(buf).spec_cells()[i] == old(buf).spec_cells()[i],
{
    if right_edge <= x {
        return 0;
    }
    let avail: u16 = right_edge - x;
    let clipped = take_width(chars, avail);
    let text = chars_to_string(&clipped);
    proof {
        crate::width::lemma_take_width_bound(chars@, avail as int);
        crate::buffer::lemma_set_string_confined(
            buf.spec_cells(),
            buf.spec_area(),
            x as int,
            y as int,
            text@,
            style,
        );
    }
    buf.set_string(x, y, text.as_str(), style);
    let w = text_width(text.as_str());
    let wv: u16 = if w >= avail as usize {
        avail
    } else {
        w as u16
    };
    wv
}

/// The rows the wrap pass cuts one row of glyphs into: greedy chunks
/// that fit the width, a glyph wider than the whole width being
/// skipped. This is exactly how the paragraph renderer wraps.
pub open spec fn spec_wrap_chunks(chars: Seq<char>, width: int) -> int
    decreases chars.len(),
{
    if chars.len() == 0 {
        0
    } else {
        let c = crate::width::spec_take_width(chars, width);
        if c.len() == 0 {
            spec_wrap_chunks(chars.skip(1), width)
        } else {
            1 + spec_wrap_chunks(
                chars.skip(crate::layout::min_int(c.len() as int, chars.len() as int)),
                width,
            )
        }
    }
}

pub proof fn lemma_wrap_chunks_nonneg(chars: Seq<char>, width: int)
    ensures
        spec_wrap_chunks(chars, width) >= 0,
    decreases chars.len(),
{
    if chars.len() > 0 {
        let c = crate::width::spec_take_width(chars, width);
        if c.len() == 0 {
            lemma_wrap_chunks_nonneg(chars.skip(1), width);
        } else {
            lemma_wrap_chunks_nonneg(
                chars.skip(crate::layout::min_int(c.len() as int, chars.len() as int)),
                width,
            );
        }
    }
}

/// The rows one line occupies when wrapped: one per chunk, and one even
/// when nothing fits (an empty line still takes a blank row).
pub open spec fn spec_wrapped_line_rows(chars: Seq<char>, width: int) -> int {
    let c = spec_wrap_chunks(chars, width);
    if c == 0 {
        1
    } else {
        c
    }
}

/// Total rows of a text wrapped at `width` columns.
pub open spec fn spec_wrapped_row_total(lines: Seq<Seq<char>>, width: int) -> int
    decreases lines.len(),
{
    if lines.len() == 0 {
        0
    } else {
        spec_wrapped_row_total(lines.drop_last(), width) + spec_wrapped_line_rows(
            lines.last(),
            width,
        )
    }
}

pub proof fn lemma_wrapped_row_total_nonneg(lines: Seq<Seq<char>>, width: int)
    ensures
        spec_wrapped_row_total(lines, width) >= 0,
    decreases lines.len(),
{
    if lines.len() > 0 {
        lemma_wrapped_row_total_nonneg(lines.drop_last(), width);
        lemma_wrap_chunks_nonneg(lines.last(), width);
    }
}

/// Counts the wrap chunks of one row of glyphs, as the renderer cuts
/// them.
fn wrap_chunk_count(chars: &Vec<char>, width: u16) -> (r: usize)
    requires
        width > 0,
    ensures
        r == spec_wrap_chunks(chars@, width as int),
{
    let mut chunks: usize = 0;
    let mut pos: usize = 0;
    proof {
        assert(chars@.skip(0) =~= chars@);
        lemma_wrap_chunks_nonneg(chars@, width as int);
    }
    while pos < chars.len()
        invariant
            pos <= chars@.len(),
            chunks <= pos,
            spec_wrap_chunks(chars@, width as int) == chunks + spec_wrap_chunks(
                chars@.skip(pos as int),
                width as int,
            ),
        decreases chars@.len() - pos,
    {
        let rest = vec_suffix(chars, pos);
        let c = take_width(&rest, width);
        if c.len() == 0 {
            proof {
                assert(chars@.skip(pos as int).skip(1) =~= chars@.skip(pos as int + 1));
            }
            pos = pos + 1;
        } else {
            proof {
                assert(chars@.skip(pos as int).skip(c@.len() as int) =~= chars@.skip(
                    pos as int + c@.len() as int,
                ));
            }
            chunks = chunks + 1;
            pos = pos + c.len();
        }
    }
    proof {
        assert(chars@.skip(chars@.len() as int) =~= Seq::<char>::empty());
    }
    chunks
}

/// The number of rows a paragraph occupies at the given width,
/// mirroring the renderer: zero at width zero; unwrapped, one row per
/// logical line; wrapped, one row per greedy glyph chunk (a blank row
/// for a line with no chunk); the chrome's vertical space added; sums
/// saturate at `usize::MAX`.
pub fn paragraph_line_count(p: &ParagraphInput, width: u16) -> (r: usize)
    ensures
        width == 0 ==> r == 0,
        (width > 0 && !p.wrap) ==> r == min_width(
            crate::text::spec_text_lines(p.text).len()
                + crate::block::spec_opt_vertical_insets(p.block),
        ),
        (width > 0 && p.wrap) ==> r == min_width(
            spec_wrapped_row_total(crate::text::spec_text_lines(p.text), width as int)
                + crate::block::spec_opt_vertical_insets(p.block),
        ),
{
    if width == 0 {
        return 0;
    }
    let ghost insets: int = crate::block::spec_opt_vertical_insets(p.block);
    let chrome: usize = match &p.block {
        Option::None => 0,
        Option::Some(b) => {
            let parsed = parse_block(b);
            let (top, bottom) = parsed.vertical_space();
            proof {
                assert(parsed.spec_inset_top() == crate::block::spec_input_inset_top(*b));
                assert(parsed.spec_inset_bottom() == crate::block::spec_input_inset_bottom(*b));
            }
            (top + bottom) as usize
        },
    };
    let lines = parse_text(&p.text);
    if !p.wrap {
        let n = lines.len();
        let r: usize = if n <= usize::MAX - chrome {
            n + chrome
        } else {
            usize::MAX
        };
        return r;
    }
    let ghost rows_spec = crate::text::spec_text_lines(p.text);
    let mut total: usize = chrome;
    let mut i: usize = 0;
    while i < lines.len()
        invariant
            i <= lines@.len(),
            width > 0,
            0 <= insets,
            chrome == min_width(insets),
            rows_spec == crate::text::spec_text_lines(p.text),
            lines@.len() == rows_spec.len(),
            forall|j: int|
                0 <= j < lines@.len() ==> #[trigger] crate::text::spec_line_chars(
                    lines@[j].spans@,
                ) == rows_spec[j],
            total == min_width(
                spec_wrapped_row_total(rows_spec.subrange(0, i as int), width as int) + insets,
            ),
        decreases lines@.len() - i,
    {
        proof {
            let pre = rows_spec.subrange(0, i as int + 1);
            assert(pre.drop_last() =~= rows_spec.subrange(0, i as int));
            assert(pre.last() == rows_spec[i as int]);
            lemma_wrapped_row_total_nonneg(rows_spec.subrange(0, i as int), width as int);
            lemma_wrap_chunks_nonneg(rows_spec[i as int], width as int);
        }
        let joined = line_chars(&lines[i]);
        let chars = str_chars(joined.as_str());
        let chunks = wrap_chunk_count(&chars, width);
        let rows: usize = if chunks == 0 {
            1
        } else {
            chunks
        };
        total = if total <= usize::MAX - rows {
            total + rows
        } else {
            usize::MAX
        };
        i = i + 1;
    }
    proof {
        assert(rows_spec.subrange(0, rows_spec.len() as int) =~= rows_spec);
    }
    total
}

/// The widest row of a text, in display columns.
pub open spec fn spec_max_line_width(lines: Seq<Seq<char>>) -> int
    decreases lines.len(),
{
    if lines.len() == 0 {
        0
    } else {
        let rest = spec_max_line_width(lines.drop_last());
        let w = crate::width::spec_text_width(lines.last());
        if w >= rest {
            w
        } else {
            rest
        }
    }
}

/// The unwrapped display width of a paragraph: its widest line plus
/// the chrome's horizontal space, saturating at `usize::MAX`.
pub fn paragraph_line_width(p: &ParagraphInput) -> (r: usize)
    ensures
        r == min_width(
            spec_max_line_width(crate::text::spec_text_lines(p.text))
                + crate::block::spec_opt_horizontal_insets(p.block),
        ),
{
    let chrome: usize = match &p.block {
        Option::None => 0,
        Option::Some(b) => {
            let parsed = parse_block(b);
            let (left, right) = parsed.horizontal_space();
            proof {
                assert(parsed.spec_inset_left() == crate::block::spec_input_inset_left(*b));
                assert(parsed.spec_inset_right() == crate::block::spec_input_inset_right(*b));
            }
            (left + right) as usize
        },
    };
    let ghost insets: int = crate::block::spec_opt_horizontal_insets(p.block);
    let lines = parse_text(&p.text);
    let ghost rows_spec = crate::text::spec_text_lines(p.text);
    let mut widest: usize = 0;
    let mut i: usize = 0;
    while i < lines.len()
        invariant
            i <= lines@.len(),
            rows_spec == crate::text::spec_text_lines(p.text),
            lines@.len() == rows_spec.len(),
            forall|j: int|
                0 <= j < lines@.len() ==> #[trigger] crate::text::spec_line_chars(
                    lines@[j].spans@,
                ) == rows_spec[j],
            widest == min_width(spec_max_line_width(rows_spec.subrange(0, i as int))),
        decreases lines@.len() - i,
    {
        proof {
            let pre = rows_spec.subrange(0, i as int + 1);
            assert(pre.drop_last() =~= rows_spec.subrange(0, i as int));
            assert(pre.last() == rows_spec[i as int]);
            crate::width::lemma_text_width_nonneg(rows_spec[i as int]);
        }
        let lw = crate::text::line_display_width(&lines[i]);
        if lw > widest {
            widest = lw;
        }
        i = i + 1;
    }
    proof {
        assert(rows_spec.subrange(0, rows_spec.len() as int) =~= rows_spec);
    }
    let r: usize = if widest <= usize::MAX - chrome {
        widest + chrome
    } else {
        usize::MAX
    };
    proof {
        crate::width::lemma_text_width_nonneg(Seq::<char>::empty());
    }
    r
}

/// Renders a paragraph: chrome, then its lines, scrolled, aligned and
/// clipped into the content rectangle. Without wrapping each span keeps
/// its own style; wrapped text is painted in the line style.
pub fn render_paragraph(buf: &mut Buffer, area: Rect, p: &ParagraphInput)
    requires
        old(buf).wf(),
    ensures
        final(buf).wf(),
        final(buf).spec_area() == old(buf).spec_area(),
        // The painting stays inside the (clipped) area.
        crate::buffer::spec_outside_unchanged(
            old(buf).spec_cells(),
            final(buf).spec_cells(),
            old(buf).spec_area(),
            crate::layout::spec_clip_area(area),
        ),
{
    let style = parse_style(&p.style);
    let empty_block_input: BlockInput;
    let block_input: &BlockInput = match &p.block {
        Option::Some(b) => b,
        Option::None => {
            empty_block_input = BlockInput::new_empty();
            &empty_block_input
        },
    };
    let block = parse_block(block_input);
    let inner = render_block_chrome(buf, area, &block);
    if inner.width == 0 || inner.height == 0 {
        return ;
    }
    let (scroll_rows, scroll_cols): (u16, u16) = match p.scroll {
        Option::Some((r, c)) => (r, c),
        Option::None => (0, 0),
    };
    let lines = parse_text(&p.text);
    let right: u16 = inner.x + inner.width;
    let mut row: u16 = 0;
    let mut li: usize = scroll_rows as usize;
    while row < inner.height && li < lines.len()
        invariant
            buf.wf(),
            buf.spec_area() == old(buf).spec_area(),
            inner.spec_right() <= 0xffff,
            inner.spec_bottom() <= 0xffff,
            inner.spec_within(crate::layout::spec_clip_area(area)),
            right == inner.x + inner.width,
            row <= inner.height,
            crate::buffer::spec_outside_unchanged(
                old(buf).spec_cells(),
                buf.spec_cells(),
                old(buf).spec_area(),
                crate::layout::spec_clip_area(area),
            ),
        decreases lines@.len() - li,
    {
        let line = &lines[li];
        let align = match &p.alignment {
            Option::Some(_) => parse_alignment(&p.alignment),
            Option::None => line.alignment,
        };
        let line_style = style.patch(line.style);
        if p.wrap {
            let joined = line_chars(line);
            let all = str_chars(joined.as_str());
            let visible = drop_width(&all, scroll_cols);
            let mut painted: u16 = 0;
            let mut pos: usize = 0;
            while pos < visible.len() && row < inner.height
                invariant
                    buf.wf(),
                    buf.spec_area() == old(buf).spec_area(),
                    inner.spec_right() <= 0xffff,
                    inner.spec_bottom() <= 0xffff,
                    inner.spec_within(crate::layout::spec_clip_area(area)),
                    right == inner.x + inner.width,
                    row <= inner.height,
                    painted <= row,
                    pos <= visible@.len(),
                    crate::buffer::spec_outside_unchanged(
                        old(buf).spec_cells(),
                        buf.spec_cells(),
                        old(buf).spec_area(),
                        crate::layout::spec_clip_area(area),
                    ),
                decreases visible@.len() - pos,
            {
                let rest = vec_suffix(&visible, pos);
                let chunk = take_width(&rest, inner.width);
                if chunk.len() == 0 {
                    // A glyph wider than the whole row: skip it.
                    pos = pos + 1;
                } else {
                    let text = chars_to_string(&chunk);
                    let cw = text_width(text.as_str());
                    let off: u16 = match align {
                        Alignment::Left => 0,
                        Alignment::Center => if cw < inner.width as usize {
                            ((inner.width as usize - cw) / 2) as u16
                        } else {
                            0
                        },
                        Alignment::Right => if cw < inner.width as usize {
                            (inner.width as usize - cw) as u16
                        } else {
                            0
                        },
                    };
                    let ghost step = buf.spec_cells();
                    proof {
                        crate::width::lemma_take_width_bound(rest@, inner.width as int);
                        crate::width::lemma_text_width_nonneg(text@);
                        crate::buffer::lemma_set_string_confined(
                            buf.spec_cells(),
                            buf.spec_area(),
                            inner.x as int + off as int,
                            inner.y as int + row as int,
                            text@,
                            line_style,
                        );
                    }
                    buf.set_string(inner.x + off, inner.y + row, text.as_str(), line_style);
                    proof {
                        lemma_row_write_confined(
                            old(buf).spec_cells(),
                            step,
                            buf.spec_cells(),
                            buf.spec_area(),
                            crate::layout::spec_clip_area(area),
                            inner.x as int + off as int,
                            inner.y as int + row as int,
                            inner.x as int + off as int + crate::width::spec_text_width(text@),
                        );
                    }
                    row = row + 1;
                    painted = painted + 1;
                    pos = pos + chunk.len();
                }
            }
            // A line that produced no chunk still occupies one blank
            // row, as it would unwrapped.
            if painted == 0 && row < inner.height {
                row = row + 1;
            }
        } else {
            let joined = line_chars(line);
            let all = str_chars(joined.as_str());
            let visible = drop_width(&all, scroll_cols);
            let lw = text_width(chars_to_string(&visible).as_str());
            let off: u16 = match align {
                Alignment::Left => 0,
                Alignment::Center => if lw < inner.width as usize {
                    ((inner.width as usize - lw) / 2) as u16
                } else {
                    0
                },
                Alignment::Right => if lw < inner.width as usize {
                    (inner.width as usize - lw) as u16
                } else {
                    0
                },
            };
            // Paint span by span so each keeps its style, skipping the
            // scrolled-off columns first.
            let mut x: u16 = inner.x + off;
            let mut skipped: u16 = 0;
            let mut s: usize = 0;
            while s < line.spans.len()
                invariant
                    buf.wf(),
                    buf.spec_area() == old(buf).spec_area(),
                    inner.spec_right() <= 0xffff,
                    inner.spec_bottom() <= 0xffff,
                    inner.spec_within(crate::layout::spec_clip_area(area)),
                    right == inner.x + inner.width,
                    inner.y as int + row as int <= 0xffff,
                    (inner.y as int + row as int) < inner.spec_bottom(),
                    inner.x <= x,
                    x <= right,
                    crate::buffer::spec_outside_unchanged(
                        old(buf).spec_cells(),
                        buf.spec_cells(),
                        old(buf).spec_area(),
                        crate::layout::spec_clip_area(area),
                    ),
                decreases line.spans@.len() - s,
            {
                let span = &line.spans[s];
                let sc = str_chars(span.content.as_str());
                let sw = text_width(span.content.as_str());
                let (vis, sk): (Vec<char>, u16) = if (skipped as usize) < scroll_cols as usize {
                    let need: u16 = scroll_cols - skipped;
                    if sw <= need as usize {
                        (Vec::new(), sw as u16)
                    } else {
                        (drop_width(&sc, need), need)
                    }
                } else {
                    (sc, 0)
                };
                skipped = if skipped <= 0xffffu16 - sk {
                    skipped + sk
                } else {
                    skipped
                };
                let ghost step = buf.spec_cells();
                let painted = paint_clipped(buf, x, inner.y + row, right, &vis, style.patch(
                    line.style,
                ).patch(span.style));
                proof {
                    lemma_row_write_confined(
                        old(buf).spec_cells(),
                        step,
                        buf.spec_cells(),
                        buf.spec_area(),
                        crate::layout::spec_clip_area(area),
                        x as int,
                        inner.y as int + row as int,
                        right as int,
                    );
                }
                x = if x <= right - painted {
                    x + painted
                } else {
                    right
                };
                s = s + 1;
            }
            row = row + 1;
        }
        li = li + 1;
    }
}

/// The rows a list shows: the height of the content rectangle its
/// chrome leaves inside the (clipped) area.
pub open spec fn spec_list_viewport(l: ListInput, area: Rect) -> int {
    crate::block::spec_opt_inner(l.block, crate::layout::spec_clip_area(area)).height as int
}

/// Renders a list in stateful mode: the state's selection is
/// authoritative, and the scroll offset the pass settles on is written
/// back into the state, so the next frame sees the updated position.
pub fn render_list(buf: &mut Buffer, area: Rect, l: &ListInput, state: &mut ListState) -> (r:
    Result<(), BridgeError>)
    requires
        old(buf).wf(),
    ensures
        final(buf).wf(),
        final(buf).spec_area() == old(buf).spec_area(),
        r == (match l.direction {
            Option::Some(d) => if d@ == "top_to_bottom"@ || d@ == "bottom_to_top"@ {
                Result::<(), BridgeError>::Ok(())
            } else {
                Result::<(), BridgeError>::Err(BridgeError::UnknownListDirection)
            },
            Option::None => Result::<(), BridgeError>::Ok(()),
        }),
        // The written-back offset is exactly the resolved one for the
        // viewport the chrome leaves (the content rectangle's height),
        // with the descriptor's scroll padding kept visible around the
        // selection.
        r is Ok ==> final(state).scroll_offset == crate::state::spec_resolve_offset_padded(
            old(state).scroll_offset as int,
            old(state).selection,
            l.items@.len() as int,
            spec_list_viewport(*l, area),
            (match l.scroll_padding {
                Option::Some(p) => p as int,
                Option::None => 0,
            }),
        ),
        (r is Ok && l.scroll_padding is None) ==> final(state).scroll_offset
            == spec_resolve_offset(
            old(state).scroll_offset as int,
            old(state).selection,
            l.items@.len() as int,
            spec_list_viewport(*l, area),
        ),
        r is Ok ==> final(state).selection == (match old(state).selection {
            Option::None => Option::<usize>::None,
            Option::Some(s) => if l.items@.len() == 0 {
                Option::Some(s)
            } else {
                Option::Some(crate::state::min_nat(s as int, l.items@.len() - 1) as usize)
            },
        }),
        r is Err ==> *final(state) == *old(state) && final(buf).spec_cells() == old(buf).spec_cells(),
        // The painting stays inside the (clipped) area.
        crate::buffer::spec_outside_unchanged(
            old(buf).spec_cells(),
            final(buf).spec_cells(),
            old(buf).spec_area(),
            crate::layout::spec_clip_area(area),
        ),
{
    let bottom_to_top: bool = match &l.direction {
        Option::Some(d) => {
            if str_eq(d.as_str(), "top_to_bottom") {
                false
            } else if str_eq(d.as_str(), "bottom_to_top") {
                true
            } else {
                return Result::Err(BridgeError::UnknownListDirection);
            }
        },
        Option::None => false,
    };
    let style = parse_style(&l.style);
    let highlight_style = parse_style(&l.highlight_style);
    let empty_block_input: BlockInput;
    let block_input: &BlockInput = match &l.block {
        Option::Some(b) => b,
        Option::None => {
            empty_block_input = BlockInput::new_empty();
            &empty_block_input
        },
    };
    let block = parse_block(block_input);
    let inner = render_block_chrome(buf, area, &block);
    proof {
        assert(inner == crate::block::spec_opt_inner(l.block, crate::layout::spec_clip_area(area)));
    }
    let ghost mid = buf.spec_cells();
    buf.style_region(inner, style);
    proof {
        lemma_region_write_confined(
            old(buf).spec_cells(),
            mid,
            buf.spec_cells(),
            buf.spec_area(),
            crate::layout::spec_clip_area(area),
            inner,
        );
    }
    let pad: usize = match l.scroll_padding {
        Option::Some(p) => p,
        Option::None => 0,
    };
    proof {
        crate::state::lemma_resolve_offset_padded_zero(
            old(state).scroll_offset as int,
            old(state).selection,
            l.items@.len() as int,
            inner.height as int,
        );
    }
    state.sync_after_render_padded(l.items.len(), inner.height as usize, pad);
    let offset = state.offset();
    let selected = state.selected();
    let sym_chars: Vec<char> = match &l.highlight_symbol {
        Option::Some(s) => str_chars(s.as_str()),
        Option::None => Vec::new(),
    };
    let sym_w_usize = text_width(chars_to_string(&sym_chars).as_str());
    let sym_w: u16 = if sym_w_usize >= inner.width as usize {
        inner.width
    } else {
        sym_w_usize as u16
    };
    let spacing_always = match &l.highlight_spacing {
        Option::Some(s) => str_eq(s.as_str(), "always"),
        Option::None => false,
    };
    let spacing_never = match &l.highlight_spacing {
        Option::Some(s) => str_eq(s.as_str(), "never"),
        Option::None => false,
    };
    let indent: u16 = if spacing_never {
        0
    } else if spacing_always || selected.is_some() {
        sym_w
    } else {
        0
    };
    let right: u16 = inner.x + inner.width;
    let mut r: u16 = 0;
    while r < inner.height
        invariant
            buf.wf(),
            buf.spec_area() == old(buf).spec_area(),
            inner.spec_right() <= 0xffff,
            inner.spec_bottom() <= 0xffff,
            inner.spec_within(crate::layout::spec_clip_area(area)),
            right == inner.x + inner.width,
            indent <= inner.width,
            r <= inner.height,
            crate::buffer::spec_outside_unchanged(
                old(buf).spec_cells(),
                buf.spec_cells(),
                old(buf).spec_area(),
                crate::layout::spec_clip_area(area),
            ),
        decreases inner.height - r,
    {
        let idx: usize = if offset <= usize::MAX - r as usize {
            offset + r as usize
        } else {
            usize::MAX
        };
        if idx >= l.items.len() {
            break ;
        }
        let y: u16 = if bottom_to_top {
            inner.y + inner.height - 1 - r
        } else {
            inner.y + r
        };
        let is_selected = match selected {
            Option::Some(s) => s == idx,
            Option::None => false,
        };
        let row_style = if is_selected {
            style.patch(highlight_style)
        } else {
            style
        };
        if is_selected && sym_chars.len() > 0 {
            let ghost step = buf.spec_cells();
            paint_clipped(buf, inner.x, y, right, &sym_chars, row_style);
            proof {
                lemma_row_write_confined(
                    old(buf).spec_cells(),
                    step,
                    buf.spec_cells(),
                    buf.spec_area(),
                    crate::layout::spec_clip_area(area),
                    inner.x as int,
                    y as int,
                    right as int,
                );
            }
        }
        let item = str_chars(l.items[idx].as_str());
        let ghost step = buf.spec_cells();
        paint_clipped(buf, inner.x + indent, y, right, &item, row_style);
        proof {
            lemma_row_write_confined(
                old(buf).spec_cells(),
                step,
                buf.spec_cells(),
                buf.spec_area(),
                crate::layout::spec_clip_area(area),
                inner.x as int + indent as int,
                y as int,
                right as int,
            );
        }
        r = r + 1;
    }
    Result::Ok(())
}

/// Renders a list in inline mode: selection and offset are read from the
/// descriptor into a throwaway state, and the offset the pass computes
/// is discarded.
pub fn render_list_inline(buf: &mut Buffer, area: Rect, l: &ListInput) -> (r: Result<
    (),
    BridgeError,
>)
    requires
        old(buf).wf(),
    ensures
        final(buf).wf(),
        final(buf).spec_area() == old(buf).spec_area(),
        r == (match l.direction {
            Option::Some(d) => if d@ == "top_to_bottom"@ || d@ == "bottom_to_top"@ {
                Result::<(), BridgeError>::Ok(())
            } else {
                Result::<(), BridgeError>::Err(BridgeError::UnknownListDirection)
            },
            Option::None => Result::<(), BridgeError>::Ok(()),
        }),
        crate::buffer::spec_outside_unchanged(
            old(buf).spec_cells(),
            final(buf).spec_cells(),
            old(buf).spec_area(),
            crate::layout::spec_clip_area(area),
        ),
{
    let mut state = ListState::new(l.selected_index);
    match render_list(buf, area, l, &mut state) {
        Result::Ok(()) => Result::Ok(()),
        Result::Err(e) => Result::Err(e),
    }
}

/// The body rows a table shows: the chrome's content rectangle minus
/// the header row (when present and there is room) and the footer row
/// (when present and room remains).
pub open spec fn spec_table_viewport(t: TableInput, area: Rect) -> int {
    let inner = crate::block::spec_opt_inner(t.block, crate::layout::spec_clip_area(area));
    let hr: int = if t.header is Some && inner.height > 0 {
        1
    } else {
        0
    };
    let fr: int = if t.footer is Some && inner.height - hr > 0 {
        1
    } else {
        0
    };
    inner.height - hr - fr
}

/// Renders a table in stateful mode, mirroring the list: column areas
/// come from the layout solver over the width constraints, the state's
/// row selection is authoritative and its offset is written back.
pub fn render_table(buf: &mut Buffer, area: Rect, t: &TableInput, state: &mut TableState)
    requires
        old(buf).wf(),
    ensures
        final(buf).wf(),
        final(buf).spec_area() == old(buf).spec_area(),
        // The painting stays inside the (clipped) area.
        crate::buffer::spec_outside_unchanged(
            old(buf).spec_cells(),
            final(buf).spec_cells(),
            old(buf).spec_area(),
            crate::layout::spec_clip_area(area),
        ),
        // The written-back offset is exactly the resolved one for the
        // body viewport: the content rectangle minus the header and
        // footer rows.
        final(state).scroll_offset == spec_resolve_offset(
            old(state).scroll_offset as int,
            old(state).selection,
            t.rows@.len() as int,
            spec_table_viewport(*t, area),
        ),
        final(state).column_selection == old(state).column_selection,
        final(state).selection == (match old(state).selection {
            Option::None => Option::<usize>::None,
            Option::Some(s) => if t.rows@.len() == 0 {
                Option::Some(s)
            } else {
                Option::Some(crate::state::min_nat(s as int, t.rows@.len() - 1) as usize)
            },
        }),
{
    let style = parse_style(&t.style);
    let highlight_style = parse_style(&t.highlight_style);
    let empty_block_input: BlockInput;
    let block_input: &BlockInput = match &t.block {
        Option::Some(b) => b,
        Option::None => {
            empty_block_input = BlockInput::new_empty();
            &empty_block_input
        },
    };
    let block = parse_block(block_input);
    let inner = render_block_chrome(buf, area, &block);
    proof {
        assert(inner == crate::block::spec_opt_inner(t.block, crate::layout::spec_clip_area(area)));
    }
    let flex = match &t.flex {
        Option::Some(f) => parse_flex(f.as_str()),
        Option::None => crate::layout::Flex::Legacy,
    };
    let sym_chars: Vec<char> = match &t.highlight_symbol {
        Option::Some(s) => str_chars(s.as_str()),
        Option::None => Vec::new(),
    };
    let sym_w_usize = text_width(chars_to_string(&sym_chars).as_str());
    let sym_w: u16 = if sym_w_usize >= inner.width as usize {
        inner.width
    } else {
        sym_w_usize as u16
    };
    let selected_present = match t.selected_row {
        Option::Some(_) => true,
        Option::None => false,
    };
    let indent: u16 = if state.selected().is_some() || selected_present {
        sym_w
    } else {
        0
    };
    let body = Rect {
        x: inner.x + indent,
        y: inner.y,
        width: inner.width - indent,
        height: inner.height,
    };
    let columns = split_layout(body, Direction::Horizontal, &t.widths, flex);
    let header_rows: u16 = if t.header.is_some() && inner.height > 0 {
        1
    } else {
        0
    };
    let footer_rows: u16 = if t.footer.is_some() && inner.height > header_rows {
        1
    } else {
        0
    };
    let body_h: u16 = inner.height - header_rows - footer_rows;
    state.sync_after_render(t.rows.len(), body_h as usize);
    let offset = state.offset();
    let selected = state.selected();
    proof {
        assert forall|c: int| 0 <= c < columns@.len() implies #[trigger] columns@[c].spec_within(
            crate::layout::spec_clip_area(area),
        ) by {
            assert(columns@[c].spec_within(crate::layout::spec_clip_area(body)));
        }
    }
    let ghost region = crate::layout::spec_clip_area(area);
    if header_rows > 0 {
        match &t.header {
            Option::Some(cells) => {
                paint_row(buf, &columns, inner.y, cells, style, Ghost(region));
            },
            Option::None => {},
        }
    }
    let mut r: u16 = 0;
    while r < body_h
        invariant
            buf.wf(),
            buf.spec_area() == old(buf).spec_area(),
            inner.spec_bottom() <= 0xffff,
            inner.spec_right() <= 0xffff,
            inner.spec_within(region),
            region == crate::layout::spec_clip_area(area),
            region.spec_bottom() <= 0xffff,
            forall|c: int| 0 <= c < columns@.len() ==> #[trigger] columns@[c].spec_within(region),
            header_rows <= 1,
            body_h <= inner.height - header_rows,
            r <= body_h,
            crate::buffer::spec_outside_unchanged(
                old(buf).spec_cells(),
                buf.spec_cells(),
                old(buf).spec_area(),
                region,
            ),
        decreases body_h - r,
    {
        let idx: usize = if offset <= usize::MAX - r as usize {
            offset + r as usize
        } else {
            usize::MAX
        };
        if idx >= t.rows.len() {
            break ;
        }
        let is_selected = match selected {
            Option::Some(s) => s == idx,
            Option::None => false,
        };
        let row_style = if is_selected {
            style.patch(highlight_style)
        } else {
            style
        };
        if is_selected && sym_chars.len() > 0 {
            let right: u16 = inner.x + inner.width;
            let ghost step = buf.spec_cells();
            paint_clipped(buf, inner.x, inner.y + header_rows + r, right, &sym_chars, row_style);
            proof {
                lemma_row_write_confined(
                    old(buf).spec_cells(),
                    step,
                    buf.spec_cells(),
                    buf.spec_area(),
                    region,
                    inner.x as int,
                    inner.y as int + header_rows as int + r as int,
                    right as int,
                );
            }
        }
        paint_row(buf, &columns, inner.y + header_rows + r, &t.rows[idx], row_style, Ghost(region));
        r = r + 1;
    }
    if footer_rows > 0 {
        match &t.footer {
            Option::Some(cells) => {
                paint_row(buf, &columns, inner.y + inner.height - 1, cells, style, Ghost(region));
            },
            Option::None => {},
        }
    }
}

/// Paints one table row: each cell clipped to its column. Every column
/// must lie inside `region`, and only cells of row `y` inside `region`
/// change.
fn paint_row(
    buf: &mut Buffer,
    columns: &Vec<Rect>,
    y: u16,
    cells: &Vec<String>,
    style: Style,
    region: Ghost<Rect>,
)
    requires
        old(buf).wf(),
        forall|c: int| 0 <= c < columns@.len() ==> #[trigger] columns@[c].spec_within(region@),
        region@.y <= y < region@.spec_bottom(),
    ensures
        final(buf).wf(),
        final(buf).spec_area() == old(buf).spec_area(),
        crate::buffer::spec_outside_unchanged(
            old(buf).spec_cells(),
            final(buf).spec_cells(),
            old(buf).spec_area(),
            region@,
        ),
{
    let mut c: usize = 0;
    while c < columns.len() && c < cells.len()
        invariant
            buf.wf(),
            buf.spec_area() == old(buf).spec_area(),
            c <= columns@.len(),
            forall|k: int| 0 <= k < columns@.len() ==> #[trigger] columns@[k].spec_within(region@),
            region@.y <= y < region@.spec_bottom(),
            crate::buffer::spec_outside_unchanged(
                old(buf).spec_cells(),
                buf.spec_cells(),
                old(buf).spec_area(),
                region@,
            ),
        decreases columns@.len() - c,
    {
        let col = columns[c];
        if col.x as u32 + col.width as u32 <= 0xffff {
            let chars = str_chars(cells[c].as_str());
            let right: u16 = col.x + col.width;
            let ghost step = buf.spec_cells();
            paint_clipped(buf, col.x, y, right, &chars, style);
            proof {
                assert(columns@[c as int].spec_within(region@));
                lemma_row_write_confined(
                    old(buf).spec_cells(),
                    step,
                    buf.spec_cells(),
                    buf.spec_area(),
                    region@,
                    col.x as int,
                    y as int,
                    right as int,
                );
            }
        }
        c = c + 1;
    }
}

/// Renders a table in inline mode from `selected_row`.
pub fn render_table_inline(buf: &mut Buffer, area: Rect, t: &TableInput)
    requires
        old(buf).wf(),
    ensures
        final(buf).wf(),
        final(buf).spec_area() == old(buf).spec_area(),
        crate::buffer::spec_outside_unchanged(
            old(buf).spec_cells(),
            final(buf).spec_cells(),
            old(buf).spec_area(),
            crate::layout::spec_clip_area(area),
        ),
{
    let mut state = TableState::new(t.selected_row);
    render_table(buf, area, t, &mut state);
}

/// The display width the tabs row needs: the sum of the title widths,
/// one divider between neighbouring titles, and the left and right
/// padding.
pub open spec fn spec_tabs_width(
    titles: Seq<Seq<char>>,
    divider_w: int,
    pl: int,
    pr: int,
) -> int
    decreases titles.len(),
{
    if titles.len() == 0 {
        pl + pr
    } else if titles.len() == 1 {
        pl + pr + crate::width::spec_text_width(titles[0])
    } else {
        spec_tabs_width(titles.drop_last(), divider_w, pl, pr) + divider_w
            + crate::width::spec_text_width(titles.last())
    }
}

/// Measures the total rendered width of a tabs row, mirroring the
/// renderer's own layout; the sum saturates at `usize::MAX`.
pub fn tabs_width(t: &TabsInput) -> (r: usize)
    ensures
        r == min_width(
            spec_tabs_width(
                t.titles@.map_values(|s: String| s@),
                (match t.divider {
                    Option::Some(d) => crate::width::spec_text_width(d@),
                    Option::None => 1,
                }),
                t.padding_left as int,
                t.padding_right as int,
            ),
        ),
{
    let ghost toks = t.titles@.map_values(|s: String| s@);
    let divider_w: usize = match &t.divider {
        Option::Some(d) => text_width(d.as_str()),
        Option::None => 1,
    };
    let ghost divw: int = match &t.divider {
        Option::Some(d) => crate::width::spec_text_width(d@),
        Option::None => 1,
    };
    proof {
        match &t.divider {
            Option::Some(d) => {
                crate::width::lemma_text_width_nonneg(d@);
            },
            Option::None => {},
        }
    }
    let mut acc: usize = if t.padding_left <= usize::MAX - t.padding_right {
        t.padding_left + t.padding_right
    } else {
        usize::MAX
    };
    let mut i: usize = 0;
    while i < t.titles.len()
        invariant
            i <= t.titles@.len(),
            toks == t.titles@.map_values(|s: String| s@),
            divider_w == min_width(divw),
            0 <= divw,
            acc == min_width(
                spec_tabs_width(
                    toks.subrange(0, i as int),
                    divw,
                    t.padding_left as int,
                    t.padding_right as int,
                ),
            ),
        decreases t.titles@.len() - i,
    {
        proof {
            let pre = toks.subrange(0, i as int + 1);
            assert(pre.drop_last() =~= toks.subrange(0, i as int));
            assert(pre.last() == toks[i as int]);
            crate::width::lemma_text_width_nonneg(toks[i as int]);
            lemma_tabs_width_nonneg(
                toks.subrange(0, i as int),
                divw,
                t.padding_left as int,
                t.padding_right as int,
            );
        }
        let tw = text_width(t.titles[i].as_str());
        let add: usize = if i == 0 {
            tw
        } else {
            if tw <= usize::MAX - divider_w {
                tw + divider_w
            } else {
                usize::MAX
            }
        };
        acc = if acc <= usize::MAX - add {
            acc + add
        } else {
            usize::MAX
        };
        i = i + 1;
    }
    proof {
        assert(toks.subrange(0, toks.len() as int) =~= toks);
    }
    acc
}

pub proof fn lemma_tabs_width_nonneg(titles: Seq<Seq<char>>, divider_w: int, pl: int, pr: int)
    requires
        0 <= divider_w,
        0 <= pl,
        0 <= pr,
    ensures
        spec_tabs_width(titles, divider_w, pl, pr) >= pl + pr,
    decreases titles.len(),
{
    if titles.len() == 1 {
        crate::width::lemma_text_width_nonneg(titles[0]);
    } else if titles.len() > 1 {
        lemma_tabs_width_nonneg(titles.drop_last(), divider_w, pl, pr);
        crate::width::lemma_text_width_nonneg(titles.last());
    }
}

/// Renders a tabs row: left padding, then the titles separated by the
/// divider, the selected title in the highlight style.
pub fn render_tabs(buf: &mut Buffer, area: Rect, t: &TabsInput)
    requires
        old(buf).wf(),
    ensures
        final(buf).wf(),
        final(buf).spec_area() == old(buf).spec_area(),
        // The painting stays inside the (clipped) area.
        crate::buffer::spec_outside_unchanged(
            old(buf).spec_cells(),
            final(buf).spec_cells(),
            old(buf).spec_area(),
            crate::layout::spec_clip_area(area),
        ),
{
    let style = parse_style(&t.style);
    let highlight_style = parse_style(&t.highlight_style);
    let empty_block_input: BlockInput;
    let block_input: &BlockInput = match &t.block {
        Option::Some(b) => b,
        Option::None => {
            empty_block_input = BlockInput::new_empty();
            &empty_block_input
        },
    };
    let block = parse_block(block_input);
    let inner = render_block_chrome(buf, area, &block);
    if inner.width == 0 || inner.height == 0 {
        return ;
    }
    let right: u16 = inner.x + inner.width;
    let pad: u16 = if t.padding_left >= inner.width as usize {
        inner.width
    } else {
        t.padding_left as u16
    };
    let mut x: u16 = inner.x + pad;
    let divider_chars: Vec<char> = match &t.divider {
        Option::Some(d) => str_chars(d.as_str()),
        Option::None => {
            let mut v: Vec<char> = Vec::new();
            v.push('|');
            v
        },
    };
    let mut i: usize = 0;
    while i < t.titles.len()
        invariant
            buf.wf(),
            buf.spec_area() == old(buf).spec_area(),
            inner.spec_right() <= 0xffff,
            inner.spec_bottom() <= 0xffff,
            inner.spec_within(crate::layout::spec_clip_area(area)),
            inner.height > 0,
            right == inner.x + inner.width,
            x <= right,
            inner.x <= x,
            crate::buffer::spec_outside_unchanged(
                old(buf).spec_cells(),
                buf.spec_cells(),
                old(buf).spec_area(),
                crate::layout::spec_clip_area(area),
            ),
        decreases t.titles@.len() - i,
    {
        if i > 0 {
            let ghost step = buf.spec_cells();
            let dw = paint_clipped(buf, x, inner.y, right, &divider_chars, style);
            proof {
                lemma_row_write_confined(
                    old(buf).spec_cells(),
                    step,
                    buf.spec_cells(),
                    buf.spec_area(),
                    crate::layout::spec_clip_area(area),
                    x as int,
                    inner.y as int,
                    right as int,
                );
            }
            x = x + dw;
        }
        let title_style = if i == t.selected_index {
            style.patch(highlight_style)
        } else {
            style
        };
        let chars = str_chars(t.titles[i].as_str());
        let ghost step = buf.spec_cells();
        let tw = paint_clipped(buf, x, inner.y, right, &chars, title_style);
        proof {
            lemma_row_write_confined(
                old(buf).spec_cells(),
                step,
                buf.spec_cells(),
                buf.spec_area(),
                crate::layout::spec_clip_area(area),
                x as int,
                inner.y as int,
                right as int,
            );
        }
        x = x + tw;
        i = i + 1;
    }
}

} // verus!
