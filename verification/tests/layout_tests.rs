use tui_bridge::layout::parse_constraint;
use tui_bridge::{split_layout, BridgeError, Constraint, Direction, Field, Flex, Rect};

fn rect(x: u16, y: u16, width: u16, height: u16) -> Rect {
    Rect { x, y, width, height }
}

#[test]
fn test_layout_logic() {
    let area = rect(0, 0, 100, 100);
    let chunks = split_layout(
        area,
        Direction::Vertical,
        &vec![Constraint::Percentage(50), Constraint::Percentage(50)],
        Flex::Legacy,
    );
    assert_eq!(chunks.len(), 2);
    assert_eq!(chunks[0].height, 50);
}

#[test]
fn test_fill_constraint() {
    let area = rect(0, 0, 100, 10);
    let chunks = split_layout(
        area,
        Direction::Horizontal,
        &vec![Constraint::Fill(1), Constraint::Fill(3)],
        Flex::Legacy,
    );
    assert_eq!(chunks.len(), 2);
    assert_eq!(chunks[0].width, 25);
    assert_eq!(chunks[1].width, 75);
}

#[test]
fn test_flex_space_between() {
    let area = rect(0, 0, 100, 10);
    let chunks = split_layout(
        area,
        Direction::Horizontal,
        &vec![
            Constraint::Length(10),
            Constraint::Length(10),
            Constraint::Length(10),
        ],
        Flex::SpaceBetween,
    );
    assert_eq!(chunks.len(), 3);
    assert_eq!(chunks[0].x, 0);
    assert_eq!(chunks[1].x, 45);
    assert_eq!(chunks[2].x, 90);
}

#[test]
fn test_flex_space_evenly() {
    let area = rect(0, 0, 100, 10);
    let chunks = split_layout(
        area,
        Direction::Horizontal,
        &vec![
            Constraint::Length(10),
            Constraint::Length(10),
            Constraint::Length(10),
        ],
        Flex::SpaceEvenly,
    );
    assert_eq!(chunks.len(), 3);
    assert_eq!(chunks[0].x, 18);
    assert_eq!(chunks[1].x, 45);
    assert_eq!(chunks[2].x, 73);
}

#[test]
fn test_flex_center() {
    let area = rect(0, 0, 100, 10);
    let chunks = split_layout(
        area,
        Direction::Horizontal,
        &vec![Constraint::Length(20)],
        Flex::Center,
    );
    assert_eq!(chunks.len(), 1);
    assert_eq!(chunks[0].x, 40);
    assert_eq!(chunks[0].width, 20);
}

#[test]
fn test_max_constraint() {
    let area = rect(0, 0, 100, 10);
    let chunks = split_layout(
        area,
        Direction::Horizontal,
        &vec![Constraint::Max(30), Constraint::Fill(1)],
        Flex::Legacy,
    );
    assert_eq!(chunks.len(), 2);
    assert_eq!(chunks[0].width, 30);
    assert_eq!(chunks[1].width, 70);
}

#[test]
fn split_is_pure() {
    // Identical inputs give identical rectangle sequences, call after call.
    let area = rect(3, 7, 80, 24);
    let constraints = vec![
        Constraint::Min(5),
        Constraint::Ratio(1, 3),
        Constraint::Fill(2),
        Constraint::Percentage(10),
    ];
    let a = split_layout(area, Direction::Horizontal, &constraints, Flex::SpaceAround);
    let b = split_layout(area, Direction::Horizontal, &constraints, Flex::SpaceAround);
    assert_eq!(a, b);
}

#[test]
fn ratio_takes_its_fraction() {
    let area = rect(0, 0, 90, 10);
    let chunks = split_layout(
        area,
        Direction::Horizontal,
        &vec![Constraint::Ratio(1, 3), Constraint::Fill(1)],
        Flex::Legacy,
    );
    assert_eq!(chunks[0].width, 30);
    assert_eq!(chunks[1].width, 60);
}

#[test]
fn percentage_over_hundred_is_clamped() {
    let area = rect(0, 0, 50, 10);
    let chunks = split_layout(
        area,
        Direction::Horizontal,
        &vec![Constraint::Percentage(250)],
        Flex::Start,
    );
    assert_eq!(chunks[0].width, 50);
}

#[test]
fn legacy_stretches_last_piece() {
    let area = rect(0, 0, 80, 10);
    let chunks = split_layout(
        area,
        Direction::Horizontal,
        &vec![
            Constraint::Length(20),
            Constraint::Length(20),
            Constraint::Length(20),
        ],
        Flex::Legacy,
    );
    assert_eq!(chunks[0].width, 20);
    assert_eq!(chunks[1].width, 20);
    assert_eq!(chunks[2].width, 40);
}

#[test]
fn legacy_excess_goes_to_the_least_firm_class() {
    // A length is less firm than a minimum: the excess stretches the
    // length piece, not the last piece.
    let chunks = split_layout(
        rect(0, 0, 100, 10),
        Direction::Horizontal,
        &vec![Constraint::Length(20), Constraint::Min(30)],
        Flex::Legacy,
    );
    assert_eq!(chunks[0].width, 70);
    assert_eq!(chunks[1].width, 30);

    // A zero-weight fill is the least firm of all and absorbs the
    // excess even at the front.
    let chunks = split_layout(
        rect(0, 0, 80, 10),
        Direction::Horizontal,
        &vec![
            Constraint::Fill(0),
            Constraint::Max(20),
            Constraint::Length(20),
            Constraint::Length(20),
        ],
        Flex::Legacy,
    );
    assert_eq!(chunks[0].width, 20);
    assert_eq!(chunks[1].width, 20);
    assert_eq!(chunks[2].width, 20);
    assert_eq!(chunks[3].width, 20);
}

#[test]
fn end_flex_leads_with_excess() {
    let area = rect(0, 0, 100, 10);
    let chunks = split_layout(
        area,
        Direction::Horizontal,
        &vec![Constraint::Length(30)],
        Flex::End,
    );
    assert_eq!(chunks[0].x, 70);
    assert_eq!(chunks[0].width, 30);
}

#[test]
fn vertical_split_keeps_full_width() {
    let area = rect(5, 5, 40, 30);
    let chunks = split_layout(
        area,
        Direction::Vertical,
        &vec![Constraint::Length(10), Constraint::Fill(1)],
        Flex::Legacy,
    );
    assert_eq!(chunks[0], Rect { x: 5, y: 5, width: 40, height: 10 });
    assert_eq!(chunks[1], Rect { x: 5, y: 15, width: 40, height: 20 });
}

#[test]
fn constraints_that_overflow_are_cut_left_to_right() {
    let area = rect(0, 0, 30, 10);
    let chunks = split_layout(
        area,
        Direction::Horizontal,
        &vec![Constraint::Length(20), Constraint::Length(20)],
        Flex::Start,
    );
    assert_eq!(chunks[0].width, 20);
    assert_eq!(chunks[1].width, 10);
}

#[test]
fn parse_constraint_kinds() {
    assert_eq!(
        parse_constraint("length", &vec![10]),
        Ok(Constraint::Length(10))
    );
    assert_eq!(
        parse_constraint("percentage", &vec![50]),
        Ok(Constraint::Percentage(50))
    );
    assert_eq!(parse_constraint("min", &vec![3]), Ok(Constraint::Min(3)));
    assert_eq!(parse_constraint("max", &vec![9]), Ok(Constraint::Max(9)));
    assert_eq!(parse_constraint("fill", &vec![2]), Ok(Constraint::Fill(2)));
    assert_eq!(
        parse_constraint("ratio", &vec![1, 3]),
        Ok(Constraint::Ratio(1, 3))
    );
    // A ratio without exactly two values degrades to Length(0).
    assert_eq!(parse_constraint("ratio", &vec![1]), Ok(Constraint::Length(0)));
    // Unknown kinds degrade to Length(0).
    assert_eq!(parse_constraint("wobble", &vec![4]), Ok(Constraint::Length(0)));
    // A sized kind without its value fails loudly.
    assert_eq!(
        parse_constraint("length", &vec![]),
        Err(BridgeError::MissingField(Field::Value))
    );
    assert_eq!(
        parse_constraint("length", &vec![70000]),
        Err(BridgeError::ValueOutOfRange)
    );
}
