use tui_bridge::{resolve_offset, ListState, ScrollbarState, TableState};

#[test]
fn list_state_test_new_with_no_selection() {
    let state = ListState::new(None);
    assert_eq!(state.selected(), None);
    assert_eq!(state.offset(), 0);
}

#[test]
fn list_state_test_new_with_selection() {
    let state = ListState::new(Some(5));
    assert_eq!(state.selected(), Some(5));
}

#[test]
fn test_select_and_deselect() {
    let mut state = ListState::new(None);
    state.select(Some(3));
    assert_eq!(state.selected(), Some(3));
    state.select(None);
    assert_eq!(state.selected(), None);
}

#[test]
fn test_scroll_operations() {
    let mut state = ListState::new(None);
    state.scroll_down_by(5);
    assert_eq!(state.selected(), Some(5));
    state.scroll_up_by(2);
    assert_eq!(state.selected(), Some(3));
    state.scroll_up_by(9);
    assert_eq!(state.selected(), Some(0));
}

#[test]
fn table_state_test_new_with_no_selection() {
    let state = TableState::new(None);
    assert_eq!(state.selected(), None);
    assert_eq!(state.selected_column(), None);
    assert_eq!(state.offset(), 0);
}

#[test]
fn table_state_test_new_with_selection() {
    let state = TableState::new(Some(3));
    assert_eq!(state.selected(), Some(3));
}

#[test]
fn test_column_selection() {
    let mut state = TableState::new(None);
    state.select_column(Some(2));
    assert_eq!(state.selected_column(), Some(2));
    state.select_column(None);
    assert_eq!(state.selected_column(), None);
}

#[test]
fn test_new_with_content_length() {
    let state = ScrollbarState::new(100);
    assert_eq!(state.content_length(), 100);
    assert_eq!(state.position(), 0);
}

#[test]
fn test_position_navigation() {
    let mut state = ScrollbarState::new(10);
    state.next();
    assert_eq!(state.position(), 1);
    state.prev();
    assert_eq!(state.position(), 0);
}

#[test]
fn test_first_and_last() {
    let mut state = ScrollbarState::new(10);
    state.set_position(5);
    state.first();
    assert_eq!(state.position(), 0);
    state.last();
    assert_eq!(state.position(), 9);
}

#[test]
fn scrollbar_next_stops_at_last() {
    let mut state = ScrollbarState::new(2);
    state.next();
    state.next();
    state.next();
    assert_eq!(state.position(), 1);
}

#[test]
fn fresh_offset_is_minimal_keeping_selection_visible() {
    // Fresh state (offset 0), selection k, viewport h over n items: the
    // resolved offset keeps k visible and no smaller offset does.
    let n: usize = 20;
    let h: usize = 5;
    for k in 0..n {
        let offset = resolve_offset(0, Some(k), n, h);
        assert!(offset <= k && k < offset + h);
        if offset > 0 {
            assert!(!(k < (offset - 1) + h));
        }
    }
}

#[test]
fn offset_moves_only_as_far_as_needed() {
    // A visible selection leaves the offset alone; one below the window
    // pulls the window down minimally; one above pulls it up to itself.
    assert_eq!(resolve_offset(3, Some(5), 20, 5), 3);
    assert_eq!(resolve_offset(3, Some(9), 20, 5), 5);
    assert_eq!(resolve_offset(3, Some(1), 20, 5), 1);
    assert_eq!(resolve_offset(3, None, 20, 5), 3);
    assert_eq!(resolve_offset(99, Some(2), 20, 5), 2);
    assert_eq!(resolve_offset(0, Some(0), 0, 5), 0);
}
