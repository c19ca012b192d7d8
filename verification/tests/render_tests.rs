use tui_bridge::{
    center_rect, render_node, render_tree, BlockInput, Color, Constraint, Direction, Flex, Frame,
    ListInput, ListState, Node, ParagraphInput, Rect, StyleInput, TableInput, TabsInput, TextInput,
};

fn rect(x: u16, y: u16, width: u16, height: u16) -> Rect {
    Rect { x, y, width, height }
}

fn content(frame: &Frame) -> String {
    frame.buffer.content_rows().join("\n")
}

fn fg(token: &str) -> Option<StyleInput> {
    Some(StyleInput { fg: Some(token.to_string()), bg: None, modifiers: vec![] })
}

fn empty_block() -> BlockInput {
    BlockInput {
        title: None,
        title_alignment: None,
        title_style: None,
        titles: vec![],
        borders: None,
        border_color: None,
        border_style: None,
        border_type: None,
        border_set: None,
        style: None,
        padding: None,
    }
}

fn list_input(items: &[&str]) -> ListInput {
    ListInput {
        items: items.iter().map(|s| s.to_string()).collect(),
        selected_index: None,
        style: None,
        highlight_style: None,
        highlight_symbol: None,
        repeat_highlight_symbol: false,
        highlight_spacing: None,
        direction: None,
        scroll_padding: None,
        block: None,
    }
}

#[test]
fn test_center_logic() {
    let area = rect(0, 0, 100, 100);
    let center = center_rect(area, 50, 50);
    assert_eq!(center.height, 50);
    assert_eq!(center.width, 50);
}

#[test]
fn center_geometry_is_exact() {
    // Area 100 by 100 at 50 percent each way: a centered 50 by 50
    // rectangle at (25, 25).
    let center = center_rect(rect(0, 0, 100, 100), 50, 50);
    assert_eq!(center, rect(25, 25, 50, 50));
}

#[test]
fn test_cursor_math() {
    let mut frame = Frame::new(rect(0, 0, 60, 60));
    let node = Node::Cursor { x: 5, y: 5 };
    render_node(&mut frame, rect(10, 10, 50, 50), &node).unwrap();
    assert_eq!(frame.cursor, Some((15, 15)));
}

#[test]
fn test_clear_renders_without_error() {
    let mut frame = Frame::new(rect(0, 0, 10, 5));
    render_tree(&mut frame, &Node::Clear { block: None }).unwrap();
}

#[test]
fn clear_resets_only_its_area() {
    let mut frame = Frame::new(rect(0, 0, 10, 2));
    let plain = tui_bridge::Style { fg: None, bg: None, modifiers: tui_bridge::Modifiers::empty() };
    frame.buffer.set_string(0, 0, "aaaaaaaaaa", plain);
    frame.buffer.set_string(0, 1, "bbbbbbbbbb", plain);
    render_node(&mut frame, rect(0, 0, 10, 1), &Node::Clear { block: None }).unwrap();
    let rows = frame.buffer.content_rows();
    assert_eq!(rows[0], "          ");
    assert_eq!(rows[1], "bbbbbbbbbb");
}

#[test]
fn test_paragraph_rendering() {
    let mut frame = Frame::new(rect(0, 0, 20, 1));
    let node = Node::Paragraph(ParagraphInput {
        text: TextInput::Plain("test content".to_string()),
        style: None,
        block: None,
        wrap: false,
        alignment: Some("center".to_string()),
        scroll: None,
    });
    render_tree(&mut frame, &node).unwrap();
    let text = content(&frame);
    assert!(text.contains("test content"));
    assert!(text.starts_with(' '));
}

#[test]
fn paragraph_wraps_at_the_width() {
    let mut frame = Frame::new(rect(0, 0, 5, 3));
    let node = Node::Paragraph(ParagraphInput {
        text: TextInput::Plain("aaaaabbbbbccccc".to_string()),
        style: None,
        block: None,
        wrap: true,
        alignment: None,
        scroll: None,
    });
    render_tree(&mut frame, &node).unwrap();
    let rows = frame.buffer.content_rows();
    assert_eq!(rows[0], "aaaaa");
    assert_eq!(rows[1], "bbbbb");
    assert_eq!(rows[2], "ccccc");
}

#[test]
fn test_list_rendering() {
    let mut frame = Frame::new(rect(0, 0, 10, 2));
    let node = Node::List(ListInput {
        selected_index: Some(1),
        highlight_symbol: Some(">> ".to_string()),
        style: fg("white"),
        highlight_style: Some(StyleInput {
            fg: Some("yellow".to_string()),
            bg: None,
            modifiers: vec!["bold".to_string()],
        }),
        ..list_input(&["Item 1", "Item 2"])
    });
    render_tree(&mut frame, &node).unwrap();
    let text = content(&frame);
    assert!(text.contains("Item 1"));
    assert!(text.contains(">> Item 2"));

    assert_eq!(frame.buffer.cell_at(0, 0).unwrap().fg, Color::White);
    assert_eq!(frame.buffer.cell_at(0, 1).unwrap().fg, Color::Yellow);
    assert!(frame.buffer.cell_at(0, 1).unwrap().modifiers.bold);
}

#[test]
fn test_repeat_highlight_symbol() {
    let without = Node::List(ListInput {
        selected_index: Some(0),
        highlight_symbol: Some(">> ".to_string()),
        ..list_input(&["Item 1", "Item 2"])
    });
    let with = Node::List(ListInput {
        selected_index: Some(0),
        highlight_symbol: Some(">> ".to_string()),
        repeat_highlight_symbol: true,
        ..list_input(&["Item 1", "Item 2"])
    });
    let mut frame1 = Frame::new(rect(0, 0, 10, 2));
    render_tree(&mut frame1, &without).unwrap();
    let mut frame2 = Frame::new(rect(0, 0, 10, 2));
    render_tree(&mut frame2, &with).unwrap();
    assert!(!content(&frame1).trim().is_empty());
    assert!(!content(&frame2).trim().is_empty());
}

#[test]
fn test_scroll_padding() {
    let mut frame = Frame::new(rect(0, 0, 15, 4));
    let node = Node::List(ListInput {
        selected_index: Some(1),
        highlight_symbol: Some(">> ".to_string()),
        scroll_padding: Some(1),
        ..list_input(&["Item 1", "Item 2", "Item 3", "Item 4"])
    });
    render_tree(&mut frame, &node).unwrap();
    let text = content(&frame);
    assert!(!text.trim().is_empty());
    assert!(text.contains("Item"));
}

#[test]
fn stateful_list_round_trip() {
    // N items, viewport H < N, fresh state with selection k: after one
    // stateful render the offset is minimal with the selection visible.
    let mut buf = tui_bridge::Buffer::empty(rect(0, 0, 10, 3));
    let items: Vec<String> = (1..=8).map(|i| i.to_string()).collect();
    let l = ListInput {
        items,
        ..list_input(&[])
    };
    let mut state = ListState::new(Some(6));
    tui_bridge::widgets::render_list(&mut buf, rect(0, 0, 10, 3), &l, &mut state).unwrap();
    let offset = state.offset();
    assert!(offset <= 6 && 6 < offset + 3);
    assert_eq!(offset, 4);
    // The selected item is on screen.
    assert!(buf.content_rows().join("\n").contains('7'));
}

#[test]
fn list_direction_fails_loudly_on_bad_token() {
    let mut frame = Frame::new(rect(0, 0, 10, 2));
    let node = Node::List(ListInput {
        direction: Some("sideways".to_string()),
        ..list_input(&["a"])
    });
    assert_eq!(
        render_tree(&mut frame, &node),
        Err(tui_bridge::BridgeError::UnknownListDirection)
    );
}

#[test]
fn test_table_rendering() {
    let mut frame = Frame::new(rect(0, 0, 10, 3));
    let node = Node::Table(TableInput {
        header: Some(vec!["H1".to_string(), "H2".to_string()]),
        footer: Some(vec!["F1".to_string(), "F2".to_string()]),
        rows: vec![vec!["C1".to_string(), "C2".to_string()]],
        widths: vec![Constraint::Length(3), Constraint::Length(3)],
        flex: None,
        style: None,
        highlight_style: None,
        highlight_symbol: None,
        selected_row: None,
        block: None,
    });
    render_tree(&mut frame, &node).unwrap();
    let text = content(&frame);
    assert!(text.contains("H1"));
    assert!(text.contains("H2"));
    assert!(text.contains("F1"));
    assert!(text.contains("F2"));
    assert!(text.contains("C1"));
    assert!(text.contains("C2"));
}

#[test]
fn test_tabs_rendering() {
    let mut frame = Frame::new(rect(0, 0, 15, 1));
    let node = Node::Tabs(TabsInput {
        titles: vec!["Tab1".to_string(), "Tab2".to_string()],
        selected_index: 1,
        divider: Some("|".to_string()),
        padding_left: 0,
        padding_right: 0,
        style: None,
        highlight_style: None,
        block: None,
    });
    render_tree(&mut frame, &node).unwrap();
    let text = content(&frame);
    assert!(text.contains("Tab1"));
    assert!(text.contains("Tab2"));
    assert!(text.contains('|'));
}

#[test]
fn test_tabs_highlight_style() {
    let mut frame = Frame::new(rect(0, 0, 15, 1));
    let node = Node::Tabs(TabsInput {
        titles: vec!["Tab1".to_string(), "Tab2".to_string()],
        selected_index: 0,
        divider: None,
        padding_left: 1,
        padding_right: 0,
        style: None,
        highlight_style: Some(StyleInput {
            fg: Some("red".to_string()),
            bg: None,
            modifiers: vec!["bold".to_string()],
        }),
        block: None,
    });
    render_tree(&mut frame, &node).unwrap();
    let cell = frame.buffer.cell_at(1, 0).unwrap();
    assert_eq!(cell.glyph, 'T');
    assert_eq!(cell.fg, Color::Red);
    assert!(cell.modifiers.bold);
}

#[test]
fn tabs_width_mirrors_the_layout_math() {
    let t = TabsInput {
        titles: vec!["Tab1".to_string(), "Tab2".to_string(), "Long one".to_string()],
        selected_index: 0,
        divider: Some(" | ".to_string()),
        padding_left: 2,
        padding_right: 1,
        style: None,
        highlight_style: None,
        block: None,
    };
    // 2 + 1 padding, 4 + 4 + 8 titles, two dividers of width 3.
    assert_eq!(tui_bridge::widgets::tabs_width(&t), 2 + 1 + 4 + 4 + 8 + 3 + 3);
}

#[test]
fn paragraph_measurement() {
    let p = ParagraphInput {
        text: TextInput::Plain("mm\nlonger line\nx".to_string()),
        style: None,
        block: None,
        wrap: false,
        alignment: None,
        scroll: None,
    };
    assert_eq!(tui_bridge::widgets::paragraph_line_width(&p), 11);
    assert_eq!(tui_bridge::widgets::paragraph_line_count(&p, 40), 3);
    // Width zero measures no rows at all.
    assert_eq!(tui_bridge::widgets::paragraph_line_count(&p, 0), 0);
    let wrapped = ParagraphInput { wrap: true, ..p };
    assert_eq!(tui_bridge::widgets::paragraph_line_count(&wrapped, 4), 1 + 3 + 1);
}

#[test]
fn paragraph_measurement_counts_the_chrome() {
    let p = ParagraphInput {
        text: TextInput::Plain("mm\nlonger line\nx".to_string()),
        style: None,
        block: Some(BlockInput {
            borders: Some(tui_bridge::BordersInput::Token("all".to_string())),
            ..empty_block()
        }),
        wrap: false,
        alignment: None,
        scroll: None,
    };
    // Two border columns and two border rows join the measurements.
    assert_eq!(tui_bridge::widgets::paragraph_line_width(&p), 11 + 2);
    assert_eq!(tui_bridge::widgets::paragraph_line_count(&p, 40), 3 + 2);
}

#[test]
fn wrapped_empty_lines_still_take_a_row() {
    let mut frame = Frame::new(rect(0, 0, 5, 3));
    let node = Node::Paragraph(ParagraphInput {
        text: TextInput::Plain("a\n\nb".to_string()),
        style: None,
        block: None,
        wrap: true,
        alignment: None,
        scroll: None,
    });
    render_tree(&mut frame, &node).unwrap();
    let rows = frame.buffer.content_rows();
    assert_eq!(rows[0].trim(), "a");
    assert_eq!(rows[1].trim(), "");
    assert_eq!(rows[2].trim(), "b");
    let p = ParagraphInput {
        text: TextInput::Plain("a\n\nb".to_string()),
        style: None,
        block: None,
        wrap: true,
        alignment: None,
        scroll: None,
    };
    assert_eq!(tui_bridge::widgets::paragraph_line_count(&p, 5), 3);
}

#[test]
fn layout_node_splits_and_renders_children() {
    let mut frame = Frame::new(rect(0, 0, 10, 2));
    let node = Node::Layout {
        direction: Direction::Vertical,
        flex: Flex::Legacy,
        constraints: vec![Constraint::Length(1), Constraint::Length(1)],
        children: vec![
            Node::Paragraph(ParagraphInput {
                text: TextInput::Plain("top".to_string()),
                style: None,
                block: None,
                wrap: false,
                alignment: None,
                scroll: None,
            }),
            Node::Paragraph(ParagraphInput {
                text: TextInput::Plain("bottom".to_string()),
                style: None,
                block: None,
                wrap: false,
                alignment: None,
                scroll: None,
            }),
        ],
    };
    render_tree(&mut frame, &node).unwrap();
    let rows = frame.buffer.content_rows();
    assert!(rows[0].contains("top"));
    assert!(rows[1].contains("bottom"));
}

#[test]
fn mismatched_constraint_count_falls_back_to_uniform_split() {
    // Two children, one constraint: the fallback is a uniform
    // percentage split, not an error.
    let areas = tui_bridge::layout_child_areas(
        rect(0, 0, 100, 10),
        Direction::Horizontal,
        Flex::Legacy,
        &vec![Constraint::Length(10)],
        2,
    );
    assert_eq!(areas.len(), 2);
    assert_eq!(areas[0].width, 50);
    assert_eq!(areas[1].width, 50);
}

#[test]
fn dispatcher_geometry_matches_standalone_split() {
    // The standalone solver yields the very rectangles the dispatcher
    // uses for the same layout node.
    let constraints = vec![Constraint::Fill(1), Constraint::Fill(3)];
    let split = tui_bridge::split_layout(
        rect(0, 0, 100, 10),
        Direction::Horizontal,
        &constraints,
        Flex::Legacy,
    );
    let dispatcher = tui_bridge::layout_child_areas(
        rect(0, 0, 100, 10),
        Direction::Horizontal,
        Flex::Legacy,
        &constraints,
        2,
    );
    assert_eq!(split, dispatcher);
}

#[test]
fn overlay_later_layers_overwrite() {
    let mut frame = Frame::new(rect(0, 0, 6, 1));
    let node = Node::Overlay {
        layers: vec![
            Node::Paragraph(ParagraphInput {
                text: TextInput::Plain("aaaaaa".to_string()),
                style: None,
                block: None,
                wrap: false,
                alignment: None,
                scroll: None,
            }),
            Node::Paragraph(ParagraphInput {
                text: TextInput::Plain("bb".to_string()),
                style: None,
                block: None,
                wrap: false,
                alignment: None,
                scroll: None,
            }),
        ],
    };
    render_tree(&mut frame, &node).unwrap();
    assert_eq!(frame.buffer.content_rows()[0], "bbaaaa");
}

#[test]
fn block_draws_chrome_and_recurses_inside() {
    let mut frame = Frame::new(rect(0, 0, 8, 3));
    let node = Node::Block {
        block: BlockInput {
            title: Some("T".to_string()),
            borders: Some(tui_bridge::BordersInput::Token("all".to_string())),
            ..empty_block()
        },
        children: vec![Node::Paragraph(ParagraphInput {
            text: TextInput::Plain("in".to_string()),
            style: None,
            block: None,
            wrap: false,
            alignment: None,
            scroll: None,
        })],
    };
    render_tree(&mut frame, &node).unwrap();
    let rows = frame.buffer.content_rows();
    assert_eq!(rows[0].chars().next(), Some('\u{250c}'));
    assert!(rows[0].contains('T'));
    assert!(rows[1].contains("in"));
    assert_eq!(rows[2].chars().next(), Some('\u{2514}'));
}

#[test]
fn center_node_clears_and_fills_the_popup() {
    let mut frame = Frame::new(rect(0, 0, 8, 4));
    let plain = tui_bridge::Style { fg: None, bg: None, modifiers: tui_bridge::Modifiers::empty() };
    frame.buffer.set_string(0, 1, "xxxxxxxx", plain);
    let node = Node::Center {
        width_percent: 50,
        height_percent: 50,
        child: Box::new(Node::Paragraph(ParagraphInput {
            text: TextInput::Plain("p".to_string()),
            style: None,
            block: None,
            wrap: false,
            alignment: None,
            scroll: None,
        })),
    };
    render_tree(&mut frame, &node).unwrap();
    let center = center_rect(rect(0, 0, 8, 4), 50, 50);
    assert_eq!(center, rect(2, 1, 4, 2));
    let rows = frame.buffer.content_rows();
    // The popup area was cleared before the child was drawn into it.
    assert_eq!(rows[1], "xxp   xx");
}

#[test]
fn failed_subtree_does_not_stop_siblings() {
    let mut frame = Frame::new(rect(0, 0, 10, 2));
    let bad = Node::List(ListInput {
        direction: Some("sideways".to_string()),
        ..list_input(&["a"])
    });
    let good = Node::Paragraph(ParagraphInput {
        text: TextInput::Plain("ok".to_string()),
        style: None,
        block: None,
        wrap: false,
        alignment: None,
        scroll: None,
    });
    let node = Node::Layout {
        direction: Direction::Vertical,
        flex: Flex::Legacy,
        constraints: vec![Constraint::Length(1), Constraint::Length(1)],
        children: vec![bad, good],
    };
    // The first error surfaces, but only after every sibling was
    // attempted.
    assert_eq!(
        render_tree(&mut frame, &node),
        Err(tui_bridge::BridgeError::UnknownListDirection)
    );
    assert!(frame.buffer.content_rows()[1].contains("ok"));
}

#[test]
fn custom_node_goes_through_the_draw_protocol() {
    let mut frame = Frame::new(rect(0, 0, 6, 1));
    let node = Node::Custom(vec![tui_bridge::RawDrawCommand {
        kind: "string".to_string(),
        x: 1,
        y: 0,
        text: Some("hi".to_string()),
        style: None,
        cell: None,
    }]);
    render_tree(&mut frame, &node).unwrap();
    assert_eq!(frame.buffer.content_rows()[0], " hi   ");
}

#[test]
fn highlight_spacing_controls_the_indent() {
    // `never` drops the symbol column even while selected; `always`
    // keeps it even without a selection.
    let mut frame = Frame::new(rect(0, 0, 10, 2));
    let node = Node::List(ListInput {
        selected_index: Some(0),
        highlight_symbol: Some("> ".to_string()),
        highlight_spacing: Some("never".to_string()),
        ..list_input(&["aa", "bb"])
    });
    render_tree(&mut frame, &node).unwrap();
    assert!(frame.buffer.content_rows()[0].starts_with("aa"));

    let mut frame = Frame::new(rect(0, 0, 10, 2));
    let node = Node::List(ListInput {
        highlight_symbol: Some("> ".to_string()),
        highlight_spacing: Some("always".to_string()),
        ..list_input(&["aa", "bb"])
    });
    render_tree(&mut frame, &node).unwrap();
    assert!(frame.buffer.content_rows()[0].starts_with("  aa"));
}

#[test]
fn table_highlight_symbol_marks_the_selected_row() {
    let mut frame = Frame::new(rect(0, 0, 12, 2));
    let node = Node::Table(TableInput {
        header: None,
        footer: None,
        rows: vec![
            vec!["r1".to_string()],
            vec!["r2".to_string()],
        ],
        widths: vec![Constraint::Length(4)],
        flex: None,
        style: None,
        highlight_style: None,
        highlight_symbol: Some(">> ".to_string()),
        selected_row: Some(1),
        block: None,
    });
    render_tree(&mut frame, &node).unwrap();
    let rows = frame.buffer.content_rows();
    assert!(rows[0].starts_with("   r1"));
    assert!(rows[1].starts_with(">> r2"));
}

#[test]
fn scroll_padding_keeps_context_rows_visible() {
    // Selection 5 in a 3-row viewport with one padding row: the row
    // after the selection must stay on screen, so the window starts at
    // 4 rather than 3.
    let offset = tui_bridge::state::resolve_offset_padded(0, Some(5), 10, 3, 1);
    assert_eq!(offset, 4);
    // Without padding the minimal window starts at 3.
    assert_eq!(tui_bridge::resolve_offset(0, Some(5), 10, 3), 3);
    // The stateful list render applies the descriptor's padding.
    let mut buf = tui_bridge::Buffer::empty(rect(0, 0, 10, 3));
    let items: Vec<String> = (0..10).map(|i| i.to_string()).collect();
    let l = ListInput {
        items,
        scroll_padding: Some(1),
        ..list_input(&[])
    };
    let mut state = ListState::new(Some(5));
    tui_bridge::widgets::render_list(&mut buf, rect(0, 0, 10, 3), &l, &mut state).unwrap();
    assert_eq!(state.offset(), 4);
}

#[test]
fn test_parse_plain_string() {
    let lines = tui_bridge::text::parse_text(&TextInput::Plain("one\ntwo".to_string()));
    assert_eq!(lines.len(), 2);
}
