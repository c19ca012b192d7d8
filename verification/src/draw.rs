//! The draw command protocol: the escape hatch by which a custom node
//! supplies primitive buffer writes instead of using a built-in renderer.
//!
//! Raw commands arrive as plain records with a kind token. A recognised
//! command is applied to the target buffer, bounds-checked; a write that
//! falls outside the buffer is dropped silently (the degrade-not-abort
//! policy). An unrecognised kind is a hard error — a protocol mismatch,
//! not a data-quality issue — and ends the run.

use vstd::prelude::*;

use crate::buffer::{spec_cell_index, spec_set_string, Buffer};
use crate::error::{BridgeError, Field};
use crate::style::{
    parse_color_value, parse_modifier_list, spec_modifiers_of, spec_parse_color_value, Style,
    StyleInput,
};

verus! {

/// A parsed buffer-write command.
#[derive(Clone, Debug)]
pub enum DrawCommand {
    /// Writes a run of characters, display-width aware: a wide glyph
    /// spans more than one cell.
    WriteString { x: u16, y: u16, text: String, style: Style },
    /// Writes one glyph and style into one cell.
    WriteCell { x: u16, y: u16, glyph: char, style: Style },
}

/// The cell of a raw cell command, as plain values.
#[derive(Clone, Debug)]
pub struct CellInput {
    pub glyph: char,
    pub fg: Option<String>,
    pub bg: Option<String>,
    pub modifiers: Vec<String>,
}

/// A draw command as the host hands it over: a kind token and the fields
/// the kinds need.
#[derive(Clone, Debug)]
pub struct RawDrawCommand {
    pub kind: String,
    pub x: u16,
    pub y: u16,
    pub text: Option<String>,
    pub style: Option<StyleInput>,
    pub cell: Option<CellInput>,
}

/// The style a cell command carries.
pub open spec fn spec_cell_style(c: CellInput) -> Style {
    Style {
        fg: spec_parse_color_value(c.fg),
        bg: spec_parse_color_value(c.bg),
        modifiers: spec_modifiers_of(c.modifiers@.map_values(|t: String| t@)),
    }
}

/// What a raw command parses to: `string` and `cell` are the protocol;
/// anything else is a protocol mismatch.
pub open spec fn spec_parse_draw_command(raw: RawDrawCommand) -> Result<DrawCommand, BridgeError> {
    if raw.kind@ == "string"@ {
        match raw.text {
            Option::None => Result::Err(BridgeError::MissingField(Field::Text)),
            Option::Some(t) => Result::Ok(
                DrawCommand::WriteString {
                    x: raw.x,
                    y: raw.y,
                    text: t,
                    style: crate::style::spec_resolve_style(raw.style),
                },
            ),
        }
    } else if raw.kind@ == "cell"@ {
        match raw.cell {
            Option::None => Result::Err(BridgeError::MissingField(Field::Cell)),
            Option::Some(c) => Result::Ok(
                DrawCommand::WriteCell {
                    x: raw.x,
                    y: raw.y,
                    glyph: c.glyph,
                    style: spec_cell_style(c),
                },
            ),
        }
    } else {
        Result::Err(BridgeError::UnknownDrawCommand)
    }
}

/// Parses one raw draw command.
pub fn parse_draw_command(raw: &RawDrawCommand) -> (r: Result<DrawCommand, BridgeError>)
    ensures
        r == spec_parse_draw_command(*raw),
{
    if crate::strutil::str_eq(raw.kind.as_str(), "string") {
        match &raw.text {
            Option::None => Result::Err(BridgeError::MissingField(Field::Text)),
            Option::Some(t) => Result::Ok(
                DrawCommand::WriteString {
                    x: raw.x,
                    y: raw.y,
                    text: t.clone(),
                    style: crate::style::parse_style(&raw.style),
                },
            ),
        }
    } else if crate::strutil::str_eq(raw.kind.as_str(), "cell") {
        match &raw.cell {
            Option::None => Result::Err(BridgeError::MissingField(Field::Cell)),
            Option::Some(c) => Result::Ok(
                DrawCommand::WriteCell {
                    x: raw.x,
                    y: raw.y,
                    glyph: c.glyph,
                    style: Style {
                        fg: parse_color_value(&c.fg),
                        bg: parse_color_value(&c.bg),
                        modifiers: parse_modifier_list(&c.modifiers),
                    },
                },
            ),
        }
    } else {
        Result::Err(BridgeError::UnknownDrawCommand)
    }
}

/// The cells after one parsed command is applied.
pub open spec fn spec_apply_command(
    cells: Seq<crate::buffer::Cell>,
    area: crate::geometry::Rect,
    cmd: DrawCommand,
) -> Seq<crate::buffer::Cell> {
    match cmd {
        DrawCommand::WriteString { x, y, text, style } => spec_set_string(
            cells,
            area,
            x as int,
            y as int,
            text@,
            style,
        ),
        DrawCommand::WriteCell { x, y, glyph, style } => {
            if area.spec_contains(x as int, y as int) {
                let idx = spec_cell_index(area, x as int, y as int);
                cells.update(idx, cells[idx].spec_written(glyph, style))
            } else {
                cells
            }
        },
    }
}

/// Applies one parsed command to the buffer, bounds-checked.
pub fn apply_draw_command(buf: &mut Buffer, cmd: &DrawCommand)
    requires
        old(buf).wf(),
    ensures
        final(buf).wf(),
        final(buf).spec_area() == old(buf).spec_area(),
        final(buf).spec_cells() == spec_apply_command(
            old(buf).spec_cells(),
            old(buf).spec_area(),
            *cmd,
        ),
{
    match cmd {
        DrawCommand::WriteString { x, y, text, style } => {
            buf.set_string(*x, *y, text.as_str(), *style);
        },
        DrawCommand::WriteCell { x, y, glyph, style } => {
            buf.set_cell(*x, *y, *glyph, *style);
        },
    }
}

/// The cells after a whole run of raw commands; parsing stops the run at
/// the first protocol mismatch, keeping what was already written.
pub open spec fn spec_process_commands(
    cells: Seq<crate::buffer::Cell>,
    area: crate::geometry::Rect,
    raws: Seq<RawDrawCommand>,
) -> Seq<crate::buffer::Cell>
    decreases raws.len(),
{
    if raws.len() == 0 {
        cells
    } else {
        match spec_parse_draw_command(raws[0]) {
            Result::Err(_) => cells,
            Result::Ok(c) => spec_process_commands(
                spec_apply_command(cells, area, c),
                area,
                raws.skip(1),
            ),
        }
    }
}

/// The error that ends a run of raw commands, if any.
pub open spec fn spec_first_command_error(raws: Seq<RawDrawCommand>) -> Option<BridgeError>
    decreases raws.len(),
{
    if raws.len() == 0 {
        Option::None
    } else {
        match spec_parse_draw_command(raws[0]) {
            Result::Err(e) => Option::Some(e),
            Result::Ok(_) => spec_first_command_error(raws.skip(1)),
        }
    }
}

/// Runs a custom node's command sequence against the target buffer, in
/// order. Out-of-bounds writes are dropped silently; an unrecognised
/// command kind ends the run with an error, after the commands before it
/// have taken effect.
pub fn process_draw_commands(buf: &mut Buffer, raws: &Vec<RawDrawCommand>) -> (r: Result<
    (),
    BridgeError,
>)
    requires
        old(buf).wf(),
    ensures
        final(buf).wf(),
        final(buf).spec_area() == old(buf).spec_area(),
        final(buf).spec_cells() == spec_process_commands(
            old(buf).spec_cells(),
            old(buf).spec_area(),
            raws@,
        ),
        r == (match spec_first_command_error(raws@) {
            Option::None => Result::<(), BridgeError>::Ok(()),
            Option::Some(e) => Result::<(), BridgeError>::Err(e),
        }),
{
    let ghost goal_cells = spec_process_commands(
        old(buf).spec_cells(),
        old(buf).spec_area(),
        raws@,
    );
    let ghost goal_err = spec_first_command_error(raws@);
    let mut i: usize = 0;
    proof {
        assert(raws@.skip(0) =~= raws@);
    }
    while i < raws.len()
        invariant
            i <= raws@.len(),
            buf.wf(),
            buf.spec_area() == old(buf).spec_area(),
            goal_cells == spec_process_commands(
                old(buf).spec_cells(),
                old(buf).spec_area(),
                raws@,
            ),
            goal_err == spec_first_command_error(raws@),
            goal_cells == spec_process_commands(buf.spec_cells(), buf.spec_area(), raws@.skip(i as int)),
            goal_err == spec_first_command_error(raws@.skip(i as int)),
        decreases raws@.len() - i,
    {
        proof {
            assert(raws@.skip(i as int)[0] == raws@[i as int]);
            assert(raws@.skip(i as int).skip(1) =~= raws@.skip(i as int + 1));
        }
        match parse_draw_command(&raws[i]) {
            Result::Err(e) => {
                return Result::Err(e);
            },
            Result::Ok(cmd) => {
                apply_draw_command(buf, &cmd);
            },
        }
        i = i + 1;
    }
    proof {
        assert(raws@.skip(raws@.len() as int) =~= Seq::<RawDrawCommand>::empty());
    }
    Result::Ok(())
}

} // verus!
