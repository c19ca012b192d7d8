use tui_bridge::draw::process_draw_commands;
use tui_bridge::{
    BridgeError, Buffer, CellInput, Color, Field, Modifiers, RawDrawCommand, Rect, Style,
};

fn area(w: u16, h: u16) -> Rect {
    Rect { x: 0, y: 0, width: w, height: h }
}

fn plain_style() -> Style {
    Style { fg: None, bg: None, modifiers: Modifiers::empty() }
}

fn raw_cell(x: u16, y: u16, glyph: char) -> RawDrawCommand {
    RawDrawCommand {
        kind: "cell".to_string(),
        x,
        y,
        text: None,
        style: None,
        cell: Some(CellInput { glyph, fg: Some("red".to_string()), bg: None, modifiers: vec![] }),
    }
}

fn snapshot(buf: &Buffer) -> Vec<String> {
    buf.content_rows()
}

#[test]
fn out_of_bounds_cell_write_changes_nothing() {
    // A WriteCell outside the buffer area must not mutate any cell and
    // must not abort; a full-buffer read is unchanged afterwards.
    let mut buf = Buffer::empty(area(5, 3));
    buf.set_string(0, 0, "hello", plain_style());
    let before = snapshot(&buf);

    buf.set_cell(5, 0, 'X', plain_style());
    buf.set_cell(0, 3, 'X', plain_style());
    buf.set_cell(400, 900, 'X', plain_style());
    assert_eq!(snapshot(&buf), before);

    let cmds = vec![raw_cell(17, 1, 'Z'), raw_cell(1, 9, 'Z')];
    assert_eq!(process_draw_commands(&mut buf, &cmds), Ok(()));
    assert_eq!(snapshot(&buf), before);
}

#[test]
fn in_bounds_cell_write_lands() {
    let mut buf = Buffer::empty(area(4, 2));
    let red = Style { fg: Some(Color::Red), bg: None, modifiers: Modifiers::empty() };
    buf.set_cell(2, 1, 'Q', red);
    let cell = buf.cell_at(2, 1).unwrap();
    assert_eq!(cell.glyph, 'Q');
    assert_eq!(cell.fg, Color::Red);
    assert_eq!(buf.cell_at(4, 1), None);
}

#[test]
fn set_string_advances_by_display_width() {
    let mut buf = Buffer::empty(area(6, 1));
    buf.set_string(0, 0, "a\u{4f60}b", plain_style());
    let rows = snapshot(&buf);
    // The wide glyph occupies two columns; the cell it covers keeps its
    // blank glyph, and the next glyph lands after it.
    assert_eq!(rows[0].chars().nth(0), Some('a'));
    assert_eq!(rows[0].chars().nth(1), Some('\u{4f60}'));
    assert_eq!(rows[0].chars().nth(3), Some('b'));
}

#[test]
fn set_string_truncates_at_the_edge() {
    let mut buf = Buffer::empty(area(3, 1));
    buf.set_string(0, 0, "abcdef", plain_style());
    assert_eq!(snapshot(&buf)[0], "abc");
}

#[test]
fn unknown_draw_command_is_a_hard_error() {
    let mut buf = Buffer::empty(area(4, 2));
    let cmds = vec![
        raw_cell(0, 0, 'A'),
        RawDrawCommand {
            kind: "sparkle".to_string(),
            x: 0,
            y: 0,
            text: None,
            style: None,
            cell: None,
        },
        raw_cell(1, 0, 'B'),
    ];
    // The run stops at the mismatch; the command before it took effect.
    assert_eq!(
        process_draw_commands(&mut buf, &cmds),
        Err(BridgeError::UnknownDrawCommand)
    );
    assert_eq!(buf.cell_at(0, 0).unwrap().glyph, 'A');
    assert_eq!(buf.cell_at(1, 0).unwrap().glyph, ' ');
}

#[test]
fn draw_commands_need_their_fields() {
    let mut buf = Buffer::empty(area(4, 2));
    let no_text = vec![RawDrawCommand {
        kind: "string".to_string(),
        x: 0,
        y: 0,
        text: None,
        style: None,
        cell: None,
    }];
    assert_eq!(
        process_draw_commands(&mut buf, &no_text),
        Err(BridgeError::MissingField(Field::Text))
    );
    let no_cell = vec![RawDrawCommand {
        kind: "cell".to_string(),
        x: 0,
        y: 0,
        text: None,
        style: None,
        cell: None,
    }];
    assert_eq!(
        process_draw_commands(&mut buf, &no_cell),
        Err(BridgeError::MissingField(Field::Cell))
    );
}

#[test]
fn string_command_writes_with_style() {
    let mut buf = Buffer::empty(area(8, 1));
    let cmds = vec![RawDrawCommand {
        kind: "string".to_string(),
        x: 1,
        y: 0,
        text: Some("hi".to_string()),
        style: Some(tui_bridge::StyleInput {
            fg: Some("green".to_string()),
            bg: None,
            modifiers: vec!["bold".to_string()],
        }),
        cell: None,
    }];
    assert_eq!(process_draw_commands(&mut buf, &cmds), Ok(()));
    let cell = buf.cell_at(1, 0).unwrap();
    assert_eq!(cell.glyph, 'h');
    assert_eq!(cell.fg, Color::Green);
    assert!(cell.modifiers.bold);
}

#[test]
fn buffer_area_is_clipped_to_coordinate_space() {
    let buf = Buffer::empty(Rect { x: 0xfffe, y: 0, width: 10, height: 1 });
    assert_eq!(buf.area().width, 1);
}
