//! The cell buffer a frame is rendered into, and the bounds-checked
//! writes the draw command protocol performs on it.

use vstd::prelude::*;

use crate::geometry::Rect;
use crate::strutil::chars_to_string;
use crate::style::{Color, Modifiers, Style};
use crate::width::{glyph_width, spec_glyph_width};

verus! {

/// One terminal cell: a glyph and its resolved style.
#[derive(Clone, Copy, Debug, PartialEq, Eq, Structural)]
pub struct Cell {
    pub glyph: char,
    pub fg: Color,
    pub bg: Color,
    pub modifiers: Modifiers,
}

impl Cell {
    /// A blank cell in the terminal's default colours.
    pub open spec fn spec_default() -> Cell {
        Cell { glyph: ' ', fg: Color::Reset, bg: Color::Reset, modifiers: Modifiers::spec_empty() }
    }

    pub fn new_default() -> (r: Cell)
        ensures
            r == Cell::spec_default(),
    {
        Cell { glyph: ' ', fg: Color::Reset, bg: Color::Reset, modifiers: Modifiers::empty() }
    }

    /// The cell after a glyph is written over it with a style: the style's
    /// colours override where present, its modifiers accumulate.
    pub open spec fn spec_written(self, glyph: char, style: Style) -> Cell {
        Cell {
            glyph,
            fg: match style.fg {
                Option::Some(c) => c,
                Option::None => self.fg,
            },
            bg: match style.bg {
                Option::Some(c) => c,
                Option::None => self.bg,
            },
            modifiers: self.modifiers.spec_union(style.modifiers),
        }
    }

    pub fn written(self, glyph: char, style: Style) -> (r: Cell)
        ensures
            r == self.spec_written(glyph, style),
    {
        Cell {
            glyph,
            fg: match style.fg {
                Option::Some(c) => c,
                Option::None => self.fg,
            },
            bg: match style.bg {
                Option::Some(c) => c,
                Option::None => self.bg,
            },
            modifiers: self.modifiers.union(style.modifiers),
        }
    }
}

/// The index of the cell at `(x, y)` in row-major cell storage.
pub open spec fn spec_cell_index(area: Rect, x: int, y: int) -> int {
    (y - area.y) * area.width + (x - area.x)
}

/// Writing a string at `(x, y)`: each glyph lands where the previous one
/// ended, advancing by its display width; zero-width characters are
/// skipped; the first glyph that falls outside the area ends the write.
pub open spec fn spec_set_string(
    cells: Seq<Cell>,
    area: Rect,
    x: int,
    y: int,
    chars: Seq<char>,
    style: Style,
) -> Seq<Cell>
    decreases chars.len(),
{
    if chars.len() == 0 {
        cells
    } else {
        let w = spec_glyph_width(chars[0]);
        if w == 0 {
            spec_set_string(cells, area, x, y, chars.skip(1), style)
        } else if area.spec_contains(x, y) {
            let idx = spec_cell_index(area, x, y);
            spec_set_string(
                cells.update(idx, cells[idx].spec_written(chars[0], style)),
                area,
                x + w,
                y,
                chars.skip(1),
                style,
            )
        } else {
            cells
        }
    }
}

/// Once the write position is outside the area, nothing more is written.
pub proof fn lemma_set_string_out(
    cells: Seq<Cell>,
    area: Rect,
    x: int,
    y: int,
    chars: Seq<char>,
    style: Style,
)
    requires
        !area.spec_contains(x, y),
    ensures
        spec_set_string(cells, area, x, y, chars, style) == cells,
    decreases chars.len(),
{
    if chars.len() > 0 && spec_glyph_width(chars[0]) == 0 {
        lemma_set_string_out(cells, area, x, y, chars.skip(1), style);
    }
}

/// The buffer coordinates of a cell index, row-major over `buf_area`.
pub open spec fn spec_index_coords(buf_area: Rect, i: int) -> (int, int) {
    (buf_area.x + i % (buf_area.width as int), buf_area.y + i / (buf_area.width as int))
}

/// Index and coordinates round-trip: the cell index of a covered
/// position lies in range and maps back to that position.
pub proof fn lemma_index_coords(area: Rect, x: int, y: int)
    requires
        area.spec_contains(x, y),
    ensures
        0 <= spec_cell_index(area, x, y) < area.spec_area(),
        spec_index_coords(area, spec_cell_index(area, x, y)) == (x, y),
{
    let dy = y - area.y;
    let dx = x - area.x;
    let w = area.width as int;
    assert(0 <= dy * w + dx < area.height as int * w && (dy * w + dx) % w == dx && (dy * w + dx)
        / w == dy) by (nonlinear_arith)
        requires
            0 <= dy < area.height as int,
            0 <= dx < w,
            0 < w,
    ;
    assert(area.height as int * w == w * area.height as int) by (nonlinear_arith);
}

/// A string write touches only the cells of its own row, from the write
/// position to at most the written width.
pub proof fn lemma_set_string_confined(
    cells: Seq<Cell>,
    area: Rect,
    x: int,
    y: int,
    chars: Seq<char>,
    style: Style,
)
    requires
        cells.len() == area.spec_area(),
    ensures
        spec_set_string(cells, area, x, y, chars, style).len() == cells.len(),
        forall|i: int|
            0 <= i < cells.len() && !(spec_index_coords(area, i).1 == y && x
                <= spec_index_coords(area, i).0 < x + crate::width::spec_text_width(chars))
                ==> spec_set_string(cells, area, x, y, chars, style)[i] == cells[i],
    decreases chars.len(),
{
    if chars.len() > 0 {
        crate::width::lemma_text_width_front(chars);
        crate::width::lemma_text_width_nonneg(chars.skip(1));
        let w = spec_glyph_width(chars[0]);
        if w == 0 {
            lemma_set_string_confined(cells, area, x, y, chars.skip(1), style);
        } else if area.spec_contains(x, y) {
            lemma_index_coords(area, x, y);
            let idx = spec_cell_index(area, x, y);
            let cells2 = cells.update(idx, cells[idx].spec_written(chars[0], style));
            lemma_set_string_confined(cells2, area, x + w, y, chars.skip(1), style);
            let res = spec_set_string(cells, area, x, y, chars, style);
            let width = crate::width::spec_text_width(chars);
            assert forall|i: int|
                0 <= i < cells.len() && !(spec_index_coords(area, i).1 == y && x
                    <= spec_index_coords(area, i).0 < x + width) implies res[i] == cells[i] by {
                assert(x <= x < x + width);
                assert(i != idx);
                assert(cells2[i] == cells[i]);
                assert(!(spec_index_coords(area, i).1 == y && x + w <= spec_index_coords(
                    area,
                    i,
                ).0 < x + w + crate::width::spec_text_width(chars.skip(1))));
            }
        }
    }
}

/// Every real cell index lies inside the buffer's own area.
pub proof fn lemma_coords_in_buffer(buf_area: Rect, i: int)
    requires
        0 <= i < buf_area.spec_area(),
    ensures
        buf_area.spec_contains(spec_index_coords(buf_area, i).0, spec_index_coords(buf_area, i).1),
{
    let w = buf_area.width as int;
    let h = buf_area.height as int;
    assert(0 < w && 0 <= i % w < w && 0 <= i / w < h) by (nonlinear_arith)
        requires
            0 <= i,
            i < w * h,
            0 <= w,
            0 <= h,
    ;
}

/// Have all cells outside `region` kept their value? The modifies
/// clause of the widget painters.
pub open spec fn spec_outside_unchanged(
    old_cells: Seq<Cell>,
    new_cells: Seq<Cell>,
    buf_area: Rect,
    region: Rect,
) -> bool {
    &&& new_cells.len() == old_cells.len()
    &&& forall|i: int|
        0 <= i < old_cells.len() && !region.spec_contains(
            spec_index_coords(buf_area, i).0,
            spec_index_coords(buf_area, i).1,
        ) ==> new_cells[i] == old_cells[i]
}

/// A single-cell write stays inside any region that holds its target.
pub proof fn lemma_cell_write_confined(
    old_cells: Seq<Cell>,
    new_cells: Seq<Cell>,
    buf_area: Rect,
    region: Rect,
    x: int,
    y: int,
)
    requires
        old_cells.len() == buf_area.spec_area(),
        new_cells.len() == old_cells.len(),
        region.spec_contains(x, y),
        !buf_area.spec_contains(x, y) ==> new_cells == old_cells,
        buf_area.spec_contains(x, y) ==> exists|v: Cell|
            new_cells == old_cells.update(spec_cell_index(buf_area, x, y), v),
    ensures
        spec_outside_unchanged(old_cells, new_cells, buf_area, region),
{
    if buf_area.spec_contains(x, y) {
        lemma_index_coords(buf_area, x, y);
        let idx = spec_cell_index(buf_area, x, y);
        let v = choose|v: Cell| new_cells == old_cells.update(idx, v);
        assert forall|i: int|
            0 <= i < old_cells.len() && !region.spec_contains(
                spec_index_coords(buf_area, i).0,
                spec_index_coords(buf_area, i).1,
            ) implies new_cells[i] == old_cells[i] by {
            assert(i != idx);
            assert(new_cells[i] == old_cells.update(idx, v)[i]);
        }
    }
}

/// The cells of a buffer over `buf_area` after everything inside
/// `target` is reset to the blank default.
pub open spec fn spec_clear_region(cells: Seq<Cell>, buf_area: Rect, target: Rect) -> Seq<Cell> {
    Seq::new(
        cells.len(),
        |i: int|
            if target.spec_contains(
                buf_area.x + i % (buf_area.width as int),
                buf_area.y + i / (buf_area.width as int),
            ) {
                Cell::spec_default()
            } else {
                cells[i]
            },
    )
}

/// The cell grid of one frame. The grid covers `area`; a write outside it
/// is dropped silently, and reads outside it see nothing.
///
/// A cell holds one glyph: a wide glyph occupies its display width in
/// columns (the covered cells keep their old content), and zero-width
/// characters such as combining marks are skipped by writes. Grapheme
/// clusters are not modelled.
#[derive(Clone, Debug)]
pub struct Buffer {
    area: Rect,
    cells: Vec<Cell>,
}

impl Buffer {
    /// The rectangle the buffer covers.
    pub closed spec fn spec_area(self) -> Rect {
        self.area
    }

    /// The cells, row-major.
    pub closed spec fn spec_cells(self) -> Seq<Cell> {
        self.cells@
    }

    /// Well-formedness: one cell per coverable position, and the area
    /// lies inside the coordinate space.
    pub open spec fn wf(self) -> bool {
        &&& self.spec_cells().len() == self.spec_area().spec_area()
        &&& self.spec_area().spec_right() <= 0xffff
        &&& self.spec_area().spec_bottom() <= 0xffff
    }

    /// A buffer of blank cells covering `area` (clipped to the coordinate
    /// space).
    pub fn empty(area: Rect) -> (r: Buffer)
        ensures
            r.wf(),
            r.spec_area() == crate::layout::spec_clip_area(area),
            forall|i: int|
                0 <= i < r.spec_cells().len() ==> r.spec_cells()[i] == Cell::spec_default(),
    {
        let clipped = area.clip_to_coordinate_space();
        proof {
            assert((clipped.width as int) * (clipped.height as int) <= 0xffff * 0xffff)
                by (nonlinear_arith)
                requires
                    clipped.width <= 0xffff,
                    clipped.height <= 0xffff,
            ;
        }
        let n: u64 = (clipped.width as u64) * (clipped.height as u64);
        let mut cells: Vec<Cell> = Vec::new();
        let mut i: u64 = 0;
        while i < n
            invariant
                i <= n,
                cells@.len() == i,
                forall|j: int| 0 <= j < i ==> cells@[j] == Cell::spec_default(),
            decreases n - i,
        {
            cells.push(Cell::new_default());
            i = i + 1;
        }
        Buffer { area: clipped, cells }
    }

    pub fn area(&self) -> (r: Rect)
        ensures
            r == self.spec_area(),
    {
        self.area
    }

    /// Is `(x, y)` a cell of this buffer?
    pub fn contains(&self, x: u16, y: u16) -> (r: bool)
        ensures
            r == self.spec_area().spec_contains(x as int, y as int),
    {
        let a = self.area;
        a.x <= x && (x as u32) < a.x as u32 + a.width as u32 && a.y <= y && (y as u32) < a.y as u32
            + a.height as u32
    }

    fn index_of(&self, x: u16, y: u16) -> (r: usize)
        requires
            self.wf(),
            self.spec_area().spec_contains(x as int, y as int),
        ensures
            r == spec_cell_index(self.spec_area(), x as int, y as int),
            r < self.spec_cells().len(),
    {
        let a = self.area;
        proof {
            assert((y - a.y) * a.width + (x - a.x) < a.height * a.width) by (nonlinear_arith)
                requires
                    0 <= y as int - a.y < a.height,
                    0 <= x as int - a.x < a.width,
            ;
            assert(a.height as int * a.width as int == a.width as int * a.height as int)
                by (nonlinear_arith);
            assert(a.height as int * a.width as int <= 0xffff * 0xffff) by (nonlinear_arith)
                requires
                    a.height <= 0xffff,
                    a.width <= 0xffff,
            ;
        }
        ((y - a.y) as usize) * (a.width as usize) + ((x - a.x) as usize)
    }

    /// Writes one glyph with a style at `(x, y)`. A write outside the
    /// buffer area changes nothing and is not an error: degrade, do not
    /// abort.
    pub fn set_cell(&mut self, x: u16, y: u16, glyph: char, style: Style)
        requires
            old(self).wf(),
        ensures
            final(self).wf(),
            final(self).spec_area() == old(self).spec_area(),
            old(self).spec_area().spec_contains(x as int, y as int) ==> final(self).spec_cells()
                == old(self).spec_cells().update(
                spec_cell_index(old(self).spec_area(), x as int, y as int),
                old(self).spec_cells()[spec_cell_index(
                    old(self).spec_area(),
                    x as int,
                    y as int,
                )].spec_written(glyph, style),
            ),
            !old(self).spec_area().spec_contains(x as int, y as int) ==> final(self).spec_cells()
                == old(self).spec_cells(),
    {
        if self.contains(x, y) {
            let idx = self.index_of(x, y);
            let updated = self.cells[idx].written(glyph, style);
            self.cells.set(idx, updated);
        }
    }

    /// Writes a run of characters starting at `(x, y)`, advancing by each
    /// glyph's display width; what falls outside the area is dropped.
    pub fn set_string(&mut self, x: u16, y: u16, s: &str, style: Style)
        requires
            old(self).wf(),
        ensures
            final(self).wf(),
            final(self).spec_area() == old(self).spec_area(),
            final(self).spec_cells() == spec_set_string(
                old(self).spec_cells(),
                old(self).spec_area(),
                x as int,
                y as int,
                s@,
                style,
            ),
    {
        let ghost goal = spec_set_string(
            self.spec_cells(),
            self.spec_area(),
            x as int,
            y as int,
            s@,
            style,
        );
        let len = s.unicode_len();
        let mut i: usize = 0;
        let mut cx: u32 = x as u32;
        proof {
            assert(s@.skip(0) =~= s@);
        }
        while i < len
            invariant
                len == s@.len(),
                i <= len,
                cx <= 0x1ffff,
                self.wf(),
                self.spec_area() == old(self).spec_area(),
                goal == spec_set_string(
                    self.spec_cells(),
                    self.spec_area(),
                    cx as int,
                    y as int,
                    s@.skip(i as int),
                    style,
                ),
            decreases len - i,
        {
            let c = s.get_char(i);
            let w = glyph_width(c);
            proof {
                assert(s@.skip(i as int)[0] == s@[i as int]);
                assert(s@.skip(i as int).skip(1) =~= s@.skip(i as int + 1));
            }
            if w > 0 {
                let a = self.area;
                let inside = a.x as u32 <= cx && cx < a.x as u32 + a.width as u32 && a.y <= y && y
                    < a.y + a.height;
                if inside {
                    let idx = self.index_of(cx as u16, y);
                    let updated = self.cells[idx].written(c, style);
                    self.cells.set(idx, updated);
                    cx = cx + w as u32;
                } else {
                    proof {
                        lemma_set_string_out(
                            self.spec_cells(),
                            self.spec_area(),
                            cx as int,
                            y as int,
                            s@.skip(i as int),
                            style,
                        );
                        lemma_set_string_out(
                            self.spec_cells(),
                            self.spec_area(),
                            cx as int,
                            y as int,
                            s@.skip(i as int + 1),
                            style,
                        );
                    }
                }
            }
            i = i + 1;
        }
        proof {
            assert(s@.skip(len as int) =~= Seq::<char>::empty());
        }
    }

    /// The buffer coordinates of a cell index.
    pub open spec fn spec_coords_of_index(self, i: int) -> (int, int) {
        (
            self.spec_area().x + i % (self.spec_area().width as int),
            self.spec_area().y + i / (self.spec_area().width as int),
        )
    }

    /// Resets every cell inside `target` to the blank default; cells
    /// outside it keep their value. Used for the clear widget and for
    /// the cleared backdrop of a centered popup.
    pub fn clear_region(&mut self, target: Rect)
        requires
            old(self).wf(),
        ensures
            final(self).wf(),
            final(self).spec_area() == old(self).spec_area(),
            final(self).spec_cells() == spec_clear_region(
                old(self).spec_cells(),
                old(self).spec_area(),
                target,
            ),
    {
        let ghost goal = spec_clear_region(old(self).spec_cells(), old(self).spec_area(), target);
        let w = self.area.width;
        if w == 0 {
            proof {
                assert(self.spec_area().spec_area() == 0) by (nonlinear_arith)
                    requires
                        self.spec_area().width as int == 0,
                ;
                assert(self.spec_cells() =~= goal);
            }
            return ;
        }
        let n = self.cells.len();
        let mut i: usize = 0;
        while i < n
            invariant
                self.wf(),
                w == self.spec_area().width,
                w > 0,
                self.spec_area() == old(self).spec_area(),
                n == self.spec_cells().len(),
                n == old(self).spec_cells().len(),
                i <= n,
                forall|j: int|
                    i <= j < n ==> #[trigger] self.spec_cells()[j] == old(self).spec_cells()[j],
                forall|j: int|
                    0 <= j < i ==> #[trigger] self.spec_cells()[j] == (if target.spec_contains(
                        old(self).spec_coords_of_index(j).0,
                        old(self).spec_coords_of_index(j).1,
                    ) {
                        Cell::spec_default()
                    } else {
                        old(self).spec_cells()[j]
                    }),
            decreases n - i,
        {
            proof {
                assert(i as int / (w as int) < self.spec_area().height as int
                    && i as int % (w as int) < w as int) by (nonlinear_arith)
                    requires
                        0 < w as int,
                        0 <= i as int,
                        (i as int) < (w as int) * (self.spec_area().height as int),
                ;
            }
            let col: usize = i % (w as usize);
            let row: usize = i / (w as usize);
            let cx: u32 = self.area.x as u32 + col as u32;
            let cy: u32 = self.area.y as u32 + row as u32;
            let inside = target.x as u32 <= cx && cx < target.x as u32 + target.width as u32
                && target.y as u32 <= cy && cy < target.y as u32 + target.height as u32;
            if inside {
                self.cells.set(i, Cell::new_default());
            }
            i = i + 1;
        }
        proof {
            assert(self.spec_cells() =~= goal);
        }
    }

    /// Applies a style to every cell inside `target`, keeping glyphs;
    /// cells outside it keep their value.
    pub fn style_region(&mut self, target: Rect, style: Style)
        requires
            old(self).wf(),
        ensures
            final(self).wf(),
            final(self).spec_area() == old(self).spec_area(),
            final(self).spec_cells().len() == old(self).spec_cells().len(),
            forall|i: int|
                0 <= i < old(self).spec_cells().len() ==> #[trigger] final(self).spec_cells()[i]
                    == (if target.spec_contains(
                    old(self).spec_coords_of_index(i).0,
                    old(self).spec_coords_of_index(i).1,
                ) {
                    old(self).spec_cells()[i].spec_written(old(self).spec_cells()[i].glyph, style)
                } else {
                    old(self).spec_cells()[i]
                }),
    {
        let w = self.area.width;
        if w == 0 {
            proof {
                assert(self.spec_area().spec_area() == 0) by (nonlinear_arith)
                    requires
                        self.spec_area().width as int == 0,
                ;
            }
            return ;
        }
        let n = self.cells.len();
        let mut i: usize = 0;
        while i < n
            invariant
                self.wf(),
                w == self.spec_area().width,
                w > 0,
                self.spec_area() == old(self).spec_area(),
                n == self.spec_cells().len(),
                n == old(self).spec_cells().len(),
                i <= n,
                forall|j: int|
                    i <= j < n ==> #[trigger] self.spec_cells()[j] == old(self).spec_cells()[j],
                forall|j: int|
                    0 <= j < i ==> #[trigger] self.spec_cells()[j] == (if target.spec_contains(
                        old(self).spec_coords_of_index(j).0,
                        old(self).spec_coords_of_index(j).1,
                    ) {
                        old(self).spec_cells()[j].spec_written(
                            old(self).spec_cells()[j].glyph,
                            style,
                        )
                    } else {
                        old(self).spec_cells()[j]
                    }),
            decreases n - i,
        {
            proof {
                assert(i as int / (w as int) < self.spec_area().height as int
                    && i as int % (w as int) < w as int) by (nonlinear_arith)
                    requires
                        0 < w as int,
                        0 <= i as int,
                        (i as int) < (w as int) * (self.spec_area().height as int),
                ;
            }
            let col: usize = i % (w as usize);
            let row: usize = i / (w as usize);
            let cx: u32 = self.area.x as u32 + col as u32;
            let cy: u32 = self.area.y as u32 + row as u32;
            let inside = target.x as u32 <= cx && cx < target.x as u32 + target.width as u32
                && target.y as u32 <= cy && cy < target.y as u32 + target.height as u32;
            if inside {
                let cur = self.cells[i];
                let updated = cur.written(cur.glyph, style);
                self.cells.set(i, updated);
            }
            i = i + 1;
        }
    }

    /// The cell at `(x, y)`, or `None` outside the area.
    pub fn cell_at(&self, x: u16, y: u16) -> (r: Option<Cell>)
        requires
            self.wf(),
        ensures
            self.spec_area().spec_contains(x as int, y as int) ==> r == Option::Some(
                self.spec_cells()[spec_cell_index(self.spec_area(), x as int, y as int)],
            ),
            !self.spec_area().spec_contains(x as int, y as int) ==> r is None,
    {
        if self.contains(x, y) {
            let idx = self.index_of(x, y);
            Option::Some(self.cells[idx])
        } else {
            Option::None
        }
    }

    /// The glyph row `row` of the buffer (0-based from the area's top).
    pub open spec fn spec_row_glyphs(self, row: int) -> Seq<char> {
        Seq::new(
            self.spec_area().width as nat,
            |x: int| self.spec_cells()[row * self.spec_area().width + x].glyph,
        )
    }

    /// The buffer contents as one string of glyphs per row, top to
    /// bottom.
    pub fn content_rows(&self) -> (r: Vec<String>)
        requires
            self.wf(),
        ensures
            r@.len() == self.spec_area().height,
            forall|row: int|
                0 <= row < r@.len() ==> #[trigger] r@[row]@ == self.spec_row_glyphs(row),
    {
        let a = self.area;
        let mut rows: Vec<String> = Vec::new();
        let mut ry: u16 = 0;
        while ry < a.height
            invariant
                self.wf(),
                a == self.spec_area(),
                ry <= a.height,
                rows@.len() == ry,
                forall|row: int|
                    0 <= row < ry ==> #[trigger] rows@[row]@ == self.spec_row_glyphs(row),
            decreases a.height - ry,
        {
            let mut line: Vec<char> = Vec::new();
            let mut rx: u16 = 0;
            while rx < a.width
                invariant
                    self.wf(),
                    a == self.spec_area(),
                    ry < a.height,
                    rx <= a.width,
                    line@.len() == rx,
                    forall|x: int|
                        0 <= x < rx ==> line@[x] == self.spec_cells()[ry as int * a.width as int
                            + x].glyph,
                decreases a.width - rx,
            {
                proof {
                    assert(ry as int * a.width as int + rx < a.height as int * a.width as int)
                        by (nonlinear_arith)
                        requires
                            (ry as int) < (a.height as int),
                            (rx as int) < (a.width as int),
                    ;
                    assert(a.height as int * a.width as int == a.width as int * a.height as int)
                        by (nonlinear_arith);
                    assert(a.height as int * a.width as int <= 0xffff * 0xffff)
                        by (nonlinear_arith)
                        requires
                            a.height <= 0xffff,
                            a.width <= 0xffff,
                    ;
                }
                let idx: usize = (ry as usize) * (a.width as usize) + (rx as usize);
                line.push(self.cells[idx].glyph);
                rx = rx + 1;
            }
            let row_string = chars_to_string(&line);
            proof {
                assert(row_string@ =~= self.spec_row_glyphs(ry as int));
            }
            rows.push(row_string);
            ry = ry + 1;
        }
        rows
    }
}

} // verus!
