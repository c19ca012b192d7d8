//! The render dispatcher: a recursive walk over the widget tree that
//! turns nodes into cell-buffer writes.
//!
//! Container kinds recurse: a layout node computes its child rectangles
//! with the layout solver and renders every child even when a sibling
//! fails; an overlay stacks layers onto one area in order; a centered
//! node clears and fills a percentage sub-rectangle; a block draws its
//! chrome and recurses into the content rectangle. A failed subtree never
//! stops its siblings: the first error is remembered and surfaced only
//! after the whole frame has been attempted.

use vstd::prelude::*;

use crate::block::BlockInput;
use crate::buffer::Buffer;
use crate::draw::{process_draw_commands, RawDrawCommand};
use crate::error::BridgeError;
use crate::geometry::Rect;
use crate::layout::{
    spec_split, split_layout, Constraint, Direction, Flex,
};
use crate::widgets::{
    render_block_chrome, render_list_inline, render_paragraph, render_table_inline, render_tabs,
    ListInput, ParagraphInput, TableInput, TabsInput,
};

verus! {

broadcast use vstd::std_specs::vec::axiom_vec_decreases_to_view, vstd::seq::axiom_seq_index_decreases;

/// One frame being drawn: the cell buffer and the logical cursor
/// position, which is a side effect outside the cell grid.
#[derive(Clone, Debug)]
pub struct Frame {
    pub buffer: Buffer,
    pub cursor: Option<(u16, u16)>,
}

impl Frame {
    pub open spec fn wf(self) -> bool {
        self.buffer.wf()
    }

    /// A fresh frame over a blank buffer covering `area`.
    pub fn new(area: Rect) -> (r: Frame)
        ensures
            r.wf(),
            r.buffer.spec_area() == crate::layout::spec_clip_area(area),
            r.cursor is None,
    {
        Frame { buffer: Buffer::empty(area), cursor: Option::None }
    }
}

/// A widget descriptor: a closed set of built-in kinds plus the custom
/// escape hatch that supplies primitive draw commands.
#[derive(Debug)]
pub enum Node {
    /// Cuts its area with the layout solver and renders each child into
    /// its piece.
    Layout {
        direction: Direction,
        flex: Flex,
        constraints: Vec<Constraint>,
        children: Vec<Node>,
    },
    /// Renders layers onto the same area in order; later layers
    /// overwrite earlier ones where they overlap.
    Overlay { layers: Vec<Node> },
    /// Clears a centered percentage sub-rectangle and renders one child
    /// into it (popups).
    Center { width_percent: u16, height_percent: u16, child: Box<Node> },
    /// Draws border, titles and padding, then renders the children into
    /// the content rectangle.
    Block { block: BlockInput, children: Vec<Node> },
    /// Sets the logical cursor, offset from the node's area origin.
    Cursor { x: u16, y: u16 },
    /// Resets the area to blank cells; an optional block is drawn on
    /// top.
    Clear { block: Option<BlockInput> },
    Paragraph(ParagraphInput),
    List(ListInput),
    Table(TableInput),
    Tabs(TabsInput),
    /// A custom node's pre-computed draw commands, applied through the
    /// draw command protocol.
    Custom(Vec<RawDrawCommand>),
}

/// The constraints a layout node effectively uses: its own when their
/// count matches the child count, else a uniform percentage split — the
/// deliberate degraded-mode fallback for mismatched descriptors.
pub open spec fn spec_effective_constraints(cs: Seq<Constraint>, n: int) -> Seq<Constraint> {
    if cs.len() == n {
        cs
    } else {
        Seq::new(
            n as nat,
            |i: int|
                Constraint::Percentage((100int / (if n >= 1 {
                    n
                } else {
                    1
                })) as u16),
        )
    }
}

/// The child rectangles a layout node uses: the split of its area under
/// the effective constraints. Exposed standalone so a host can hit-test
/// against geometry identical to what the dispatcher used.
pub fn layout_child_areas(
    area: Rect,
    direction: Direction,
    flex: Flex,
    constraints: &Vec<Constraint>,
    child_count: usize,
) -> (r: Vec<Rect>)
    ensures
        r@ == spec_split(
            area,
            direction,
            flex,
            spec_effective_constraints(constraints@, child_count as int),
        ),
        r@.len() == child_count,
        forall|i: int|
            0 <= i < r@.len() ==> #[trigger] r@[i].spec_within(
                crate::layout::spec_clip_area(area),
            ),
{
    if constraints.len() == child_count {
        split_layout(area, direction, constraints, flex)
    } else {
        let share: u16 = if child_count >= 1 {
            (100usize / child_count) as u16
        } else {
            100
        };
        let mut uniform: Vec<Constraint> = Vec::new();
        let mut i: usize = 0;
        while i < child_count
            invariant
                i <= child_count,
                uniform@.len() == i,
                share == (100int / (if child_count as int >= 1 {
                    child_count as int
                } else {
                    1
                })) as u16,
                forall|j: int|
                    0 <= j < i ==> uniform@[j] == Constraint::Percentage(
                        (100int / (if child_count as int >= 1 {
                            child_count as int
                        } else {
                            1
                        })) as u16,
                    ),
            decreases child_count - i,
        {
            uniform.push(Constraint::Percentage(share));
            i = i + 1;
        }
        proof {
            assert(uniform@ =~= spec_effective_constraints(constraints@, child_count as int));
        }
        split_layout(area, direction, &uniform, flex)
    }
}

/// The centered sub-rectangle a popup uses: `width_percent` by
/// `height_percent` of the area, found by a vertical then a horizontal
/// percentage split (percentages over 100 count as 100).
pub open spec fn spec_center_rect(area: Rect, width_percent: u16, height_percent: u16) -> Rect {
    let hp = crate::layout::min_int(height_percent as int, 100);
    let wp = crate::layout::min_int(width_percent as int, 100);
    let v_side = ((100 - hp) / 2) as u16;
    let h_side = ((100 - wp) / 2) as u16;
    let vcs = seq![
        Constraint::Percentage(v_side),
        Constraint::Percentage(hp as u16),
        Constraint::Percentage(v_side),
    ];
    let middle = spec_split(area, Direction::Vertical, Flex::Legacy, vcs)[1];
    let hcs = seq![
        Constraint::Percentage(h_side),
        Constraint::Percentage(wp as u16),
        Constraint::Percentage(h_side),
    ];
    spec_split(middle, Direction::Horizontal, Flex::Legacy, hcs)[1]
}

/// Computes the centered sub-rectangle.
pub fn center_rect(area: Rect, width_percent: u16, height_percent: u16) -> (r: Rect)
    ensures
        r == spec_center_rect(area, width_percent, height_percent),
        r.spec_within(crate::layout::spec_clip_area(area)),
{
    let hp: u16 = if height_percent > 100 {
        100
    } else {
        height_percent
    };
    let wp: u16 = if width_percent > 100 {
        100
    } else {
        width_percent
    };
    let v_side: u16 = (100 - hp) / 2;
    let h_side: u16 = (100 - wp) / 2;
    let mut vcs: Vec<Constraint> = Vec::new();
    vcs.push(Constraint::Percentage(v_side));
    vcs.push(Constraint::Percentage(hp));
    vcs.push(Constraint::Percentage(v_side));
    proof {
        assert(vcs@ =~= seq![
            Constraint::Percentage(v_side),
            Constraint::Percentage(hp),
            Constraint::Percentage(v_side),
        ]);
    }
    let vsplit = split_layout(area, Direction::Vertical, &vcs, Flex::Legacy);
    let middle = vsplit[1];
    let mut hcs: Vec<Constraint> = Vec::new();
    hcs.push(Constraint::Percentage(h_side));
    hcs.push(Constraint::Percentage(wp));
    hcs.push(Constraint::Percentage(h_side));
    proof {
        assert(hcs@ =~= seq![
            Constraint::Percentage(h_side),
            Constraint::Percentage(wp),
            Constraint::Percentage(h_side),
        ]);
    }
    let hsplit = split_layout(middle, Direction::Horizontal, &hcs, Flex::Legacy);
    proof {
        assert(vsplit@[1].spec_within(crate::layout::spec_clip_area(area)));
        assert(hsplit@[1].spec_within(crate::layout::spec_clip_area(middle)));
        crate::layout::lemma_clip_within(middle);
    }
    hsplit[1]
}

/// The structural error a node's rendering surfaces: the first failure
/// met walking the tree (container children left to right), or none. A
/// list with a bad direction token and a custom node whose commands
/// break the protocol are the only failing kinds; everything else
/// degrades silently. The error depends on the tree alone.
pub open spec fn spec_node_error(node: Node) -> Option<BridgeError>
    decreases node, 0int,
{
    match node {
        Node::Layout { children, .. } => spec_first_child_error(children@, 0),
        Node::Overlay { layers } => spec_first_child_error(layers@, 0),
        Node::Center { child, .. } => spec_node_error(*child),
        Node::Block { children, .. } => spec_first_child_error(children@, 0),
        Node::List(l) => match l.direction {
            Option::Some(d) => if d@ == "top_to_bottom"@ || d@ == "bottom_to_top"@ {
                Option::None
            } else {
                Option::Some(BridgeError::UnknownListDirection)
            },
            Option::None => Option::None,
        },
        Node::Custom(raws) => crate::draw::spec_first_command_error(raws@),
        _ => Option::None,
    }
}

/// The first error among the children from index `i` on.
pub open spec fn spec_first_child_error(nodes: Seq<Node>, i: int) -> Option<BridgeError>
    decreases nodes, nodes.len() - i,
{
    if i < 0 || i >= nodes.len() {
        Option::None
    } else {
        match spec_node_error(nodes[i]) {
            Option::Some(e) => Option::Some(e),
            Option::None => spec_first_child_error(nodes, i + 1),
        }
    }
}

/// The result form of a node's structural error.
pub open spec fn spec_node_result(node: Node) -> Result<(), BridgeError> {
    match spec_node_error(node) {
        Option::None => Result::Ok(()),
        Option::Some(e) => Result::Err(e),
    }
}

/// The logical cursor position a cursor node sets: the node's offset
/// from its area origin, saturated at the coordinate-space edge.
pub open spec fn spec_cursor_target(area: Rect, x: u16, y: u16) -> (u16, u16) {
    (
        crate::layout::min_int(area.x + x, 0xffff) as u16,
        crate::layout::min_int(area.y + y, 0xffff) as u16,
    )
}

/// Is the tree free of custom nodes? A custom node's draw commands
/// carry absolute coordinates and may write anywhere in the buffer, so
/// only custom-free trees paint strictly inside their area.
pub open spec fn spec_node_custom_free(node: Node) -> bool
    decreases node, 0int,
{
    match node {
        Node::Layout { children, .. } => spec_children_custom_free(children@, 0),
        Node::Overlay { layers } => spec_children_custom_free(layers@, 0),
        Node::Center { child, .. } => spec_node_custom_free(*child),
        Node::Block { children, .. } => spec_children_custom_free(children@, 0),
        Node::Custom(_) => false,
        _ => true,
    }
}

/// Are the children from index `i` on custom-free?
pub open spec fn spec_children_custom_free(nodes: Seq<Node>, i: int) -> bool
    decreases nodes, nodes.len() - i,
{
    if i < 0 || i >= nodes.len() {
        true
    } else {
        spec_node_custom_free(nodes[i]) && spec_children_custom_free(nodes, i + 1)
    }
}

/// Custom-freedom of the whole child list reaches each child.
pub proof fn lemma_children_custom_free_at(nodes: Seq<Node>, i: int)
    requires
        spec_children_custom_free(nodes, 0),
        0 <= i < nodes.len(),
    ensures
        spec_node_custom_free(nodes[i]),
{
    lemma_children_custom_free_from(nodes, 0, i);
}

proof fn lemma_children_custom_free_from(nodes: Seq<Node>, j: int, i: int)
    requires
        spec_children_custom_free(nodes, j),
        0 <= j <= i < nodes.len(),
    ensures
        spec_node_custom_free(nodes[i]),
    decreases i - j,
{
    if j < i {
        lemma_children_custom_free_from(nodes, j + 1, i);
    }
}

/// Chains a write confined to a sub-rectangle into confinement to the
/// enclosing region.
proof fn lemma_subregion_write_confined(
    old_cells: Seq<crate::buffer::Cell>,
    mid: Seq<crate::buffer::Cell>,
    newc: Seq<crate::buffer::Cell>,
    buf_area: Rect,
    region: Rect,
    sub: Rect,
)
    requires
        crate::buffer::spec_outside_unchanged(old_cells, mid, buf_area, region),
        crate::buffer::spec_outside_unchanged(mid, newc, buf_area, sub),
        sub.spec_within(region),
    ensures
        crate::buffer::spec_outside_unchanged(old_cells, newc, buf_area, region),
{
    assert forall|i: int|
        0 <= i < old_cells.len() && !region.spec_contains(
            crate::buffer::spec_index_coords(buf_area, i).0,
            crate::buffer::spec_index_coords(buf_area, i).1,
        ) implies newc[i] == old_cells[i] by {
        assert(!sub.spec_contains(
            crate::buffer::spec_index_coords(buf_area, i).0,
            crate::buffer::spec_index_coords(buf_area, i).1,
        ));
    }
}

/// Renders one node into its area. Failures inside container children
/// are caught: every sibling is still attempted, and the first error is
/// the one returned.
pub fn render_node(frame: &mut Frame, area: Rect, node: &Node) -> (r: Result<(), BridgeError>)
    requires
        old(frame).wf(),
    ensures
        final(frame).wf(),
        final(frame).buffer.spec_area() == old(frame).buffer.spec_area(),
        // A failed subtree never stops its siblings: the result is
        // exactly the first structural error in the tree, found after
        // the whole node was attempted.
        r == spec_node_result(*node),
        // A cursor node sets the logical cursor and touches no cell.
        (*node matches Node::Cursor { x, y } ==> final(frame).cursor == Option::Some(
            spec_cursor_target(area, x, y),
        ) && final(frame).buffer == old(frame).buffer),
        // A clear node without chrome resets exactly the cells of its
        // area.
        (*node matches Node::Clear { block } ==> (block is None ==> final(frame).buffer.spec_cells()
            == crate::buffer::spec_clear_region(
            old(frame).buffer.spec_cells(),
            old(frame).buffer.spec_area(),
            area,
        ))),
        // A custom node's commands run through the draw protocol,
        // in order, stopping at the first protocol mismatch.
        (*node matches Node::Custom(raws) ==> final(frame).buffer.spec_cells()
            == crate::draw::spec_process_commands(
            old(frame).buffer.spec_cells(),
            old(frame).buffer.spec_area(),
            raws@,
        )),
        // The kinds that only paint leave the cursor alone.
        (match *node {
            Node::Cursor { .. } => true,
            Node::Layout { .. } => true,
            Node::Overlay { .. } => true,
            Node::Center { .. } => true,
            Node::Block { .. } => true,
            _ => final(frame).cursor == old(frame).cursor,
        }),
        // A tree without custom nodes paints only inside its (clipped)
        // area; custom draw commands carry absolute coordinates and are
        // bounded by the buffer instead.
        spec_node_custom_free(*node) ==> crate::buffer::spec_outside_unchanged(
            old(frame).buffer.spec_cells(),
            final(frame).buffer.spec_cells(),
            old(frame).buffer.spec_area(),
            crate::layout::spec_clip_area(area),
        ),
    decreases *node,
{
    match node {
        Node::Layout { direction, flex, constraints, children } => {
            let n = children.len();
            if n == 0 {
                return Result::Ok(());
            }
            let areas = layout_child_areas(area, *direction, *flex, constraints, n);
            let mut first_err: Option<BridgeError> = Option::None;
            let mut i: usize = 0;
            while i < n
                invariant
                    frame.wf(),
                    frame.buffer.spec_area() == old(frame).buffer.spec_area(),
                    n == children@.len(),
                    areas@.len() == n,
                    i <= n,
                    *node == (Node::Layout {
                        direction: *direction,
                        flex: *flex,
                        constraints: *constraints,
                        children: *children,
                    }),
                    (match first_err {
                        Option::None => spec_first_child_error(children@, 0)
                            == spec_first_child_error(children@, i as int),
                        Option::Some(e) => spec_first_child_error(children@, 0)
                            == Option::Some(e),
                    }),
                    forall|j: int|
                        0 <= j < areas@.len() ==> #[trigger] areas@[j].spec_within(
                            crate::layout::spec_clip_area(area),
                        ),
                    spec_node_custom_free(*node) ==> crate::buffer::spec_outside_unchanged(
                        old(frame).buffer.spec_cells(),
                        frame.buffer.spec_cells(),
                        old(frame).buffer.spec_area(),
                        crate::layout::spec_clip_area(area),
                    ),
                decreases n - i,
            {
                let child_area = areas[i];
                proof {
                    broadcast use vstd::std_specs::vec::axiom_vec_decreases_to_view;
                    broadcast use vstd::seq::axiom_seq_index_decreases;
                    assert(decreases_to!(*node => children@[i as int])) by {
                        assert(decreases_to!(*node => node->Layout_children));
                        assert(node->Layout_children == *children);
                        assert(decreases_to!(*children => children@));
                        assert(decreases_to!(children@ => children@[i as int]));
                    }
                }
                let ghost step = frame.buffer.spec_cells();
                match render_node(frame, child_area, &children[i]) {
                    Result::Err(e) => {
                        if first_err.is_none() {
                            first_err = Option::Some(e);
                        }
                    },
                    Result::Ok(()) => {},
                }
                proof {
                    if spec_node_custom_free(*node) {
                        lemma_children_custom_free_at(children@, i as int);
                        crate::layout::lemma_clip_within(child_area);
                        assert(areas@[i as int].spec_within(crate::layout::spec_clip_area(area)));
                        lemma_subregion_write_confined(
                            old(frame).buffer.spec_cells(),
                            step,
                            frame.buffer.spec_cells(),
                            old(frame).buffer.spec_area(),
                            crate::layout::spec_clip_area(area),
                            crate::layout::spec_clip_area(child_area),
                        );
                    }
                }
                i = i + 1;
            }
            match first_err {
                Option::Some(e) => Result::Err(e),
                Option::None => Result::Ok(()),
            }
        },
        Node::Overlay { layers } => {
            let mut first_err: Option<BridgeError> = Option::None;
            let mut i: usize = 0;
            let n = layers.len();
            while i < n
                invariant
                    frame.wf(),
                    frame.buffer.spec_area() == old(frame).buffer.spec_area(),
                    n == layers@.len(),
                    i <= n,
                    *node == (Node::Overlay { layers: *layers }),
                    (match first_err {
                        Option::None => spec_first_child_error(layers@, 0)
                            == spec_first_child_error(layers@, i as int),
                        Option::Some(e) => spec_first_child_error(layers@, 0) == Option::Some(e),
                    }),
                    spec_node_custom_free(*node) ==> crate::buffer::spec_outside_unchanged(
                        old(frame).buffer.spec_cells(),
                        frame.buffer.spec_cells(),
                        old(frame).buffer.spec_area(),
                        crate::layout::spec_clip_area(area),
                    ),
                decreases n - i,
            {
                let ghost step = frame.buffer.spec_cells();
                proof {
                    broadcast use vstd::std_specs::vec::axiom_vec_decreases_to_view;
                    broadcast use vstd::seq::axiom_seq_index_decreases;
                    assert(decreases_to!(*node => layers@[i as int])) by {
                        assert(decreases_to!(*node => node->Overlay_layers));
                        assert(node->Overlay_layers == *layers);
                        assert(decreases_to!(*layers => layers@));
                        assert(decreases_to!(layers@ => layers@[i as int]));
                    }
                }
                match render_node(frame, area, &layers[i]) {
                    Result::Err(e) => {
                        if first_err.is_none() {
                            first_err = Option::Some(e);
                        }
                    },
                    Result::Ok(()) => {},
                }
                proof {
                    if spec_node_custom_free(*node) {
                        lemma_children_custom_free_at(layers@, i as int);
                        lemma_subregion_write_confined(
                            old(frame).buffer.spec_cells(),
                            step,
                            frame.buffer.spec_cells(),
                            old(frame).buffer.spec_area(),
                            crate::layout::spec_clip_area(area),
                            crate::layout::spec_clip_area(area),
                        );
                    }
                }
                i = i + 1;
            }
            match first_err {
                Option::Some(e) => Result::Err(e),
                Option::None => Result::Ok(()),
            }
        },
        Node::Center { width_percent, height_percent, child } => {
            let target = center_rect(area, *width_percent, *height_percent);
            frame.buffer.clear_region(target);
            render_node(frame, target, child)
        },
        Node::Block { block, children } => {
            let spec = crate::block::parse_block(block);
            let inner = render_block_chrome(&mut frame.buffer, area, &spec);
            let mut first_err: Option<BridgeError> = Option::None;
            let mut i: usize = 0;
            let n = children.len();
            while i < n
                invariant
                    frame.wf(),
                    frame.buffer.spec_area() == old(frame).buffer.spec_area(),
                    n == children@.len(),
                    i <= n,
                    *node == (Node::Block { block: *block, children: *children }),
                    (match first_err {
                        Option::None => spec_first_child_error(children@, 0)
                            == spec_first_child_error(children@, i as int),
                        Option::Some(e) => spec_first_child_error(children@, 0)
                            == Option::Some(e),
                    }),
                    inner.spec_within(crate::layout::spec_clip_area(area)),
                    spec_node_custom_free(*node) ==> crate::buffer::spec_outside_unchanged(
                        old(frame).buffer.spec_cells(),
                        frame.buffer.spec_cells(),
                        old(frame).buffer.spec_area(),
                        crate::layout::spec_clip_area(area),
                    ),
                decreases n - i,
            {
                let ghost step = frame.buffer.spec_cells();
                proof {
                    broadcast use vstd::std_specs::vec::axiom_vec_decreases_to_view;
                    broadcast use vstd::seq::axiom_seq_index_decreases;
                    assert(decreases_to!(*node => children@[i as int])) by {
                        assert(decreases_to!(*node => node->Block_children));
                        assert(node->Block_children == *children);
                        assert(decreases_to!(*children => children@));
                        assert(decreases_to!(children@ => children@[i as int]));
                    }
                }
                match render_node(frame, inner, &children[i]) {
                    Result::Err(e) => {
                        if first_err.is_none() {
                            first_err = Option::Some(e);
                        }
                    },
                    Result::Ok(()) => {},
                }
                proof {
                    if spec_node_custom_free(*node) {
                        lemma_children_custom_free_at(children@, i as int);
                        crate::layout::lemma_clip_within(inner);
                        lemma_subregion_write_confined(
                            old(frame).buffer.spec_cells(),
                            step,
                            frame.buffer.spec_cells(),
                            old(frame).buffer.spec_area(),
                            crate::layout::spec_clip_area(area),
                            crate::layout::spec_clip_area(inner),
                        );
                    }
                }
                i = i + 1;
            }
            match first_err {
                Option::Some(e) => Result::Err(e),
                Option::None => Result::Ok(()),
            }
        },
        Node::Cursor { x, y } => {
            let cx: u32 = area.x as u32 + *x as u32;
            let cy: u32 = area.y as u32 + *y as u32;
            frame.cursor = Option::Some(
                (
                    if cx <= 0xffff {
                        cx as u16
                    } else {
                        0xffff
                    },
                    if cy <= 0xffff {
                        cy as u16
                    } else {
                        0xffff
                    },
                ),
            );
            Result::Ok(())
        },
        Node::Clear { block } => {
            let ghost pre = frame.buffer.spec_cells();
            frame.buffer.clear_region(area);
            proof {
                // A real buffer cell inside the raw area is inside the
                // clipped area too, so the clear is confined to it.
                assert forall|i: int|
                    0 <= i < pre.len() && !crate::layout::spec_clip_area(area).spec_contains(
                        crate::buffer::spec_index_coords(old(frame).buffer.spec_area(), i).0,
                        crate::buffer::spec_index_coords(old(frame).buffer.spec_area(), i).1,
                    ) implies frame.buffer.spec_cells()[i] == pre[i] by {
                    crate::buffer::lemma_coords_in_buffer(old(frame).buffer.spec_area(), i);
                    assert(!area.spec_contains(
                        crate::buffer::spec_index_coords(old(frame).buffer.spec_area(), i).0,
                        crate::buffer::spec_index_coords(old(frame).buffer.spec_area(), i).1,
                    ));
                }
            }
            match block {
                Option::Some(b) => {
                    let spec = crate::block::parse_block(b);
                    let ghost step = frame.buffer.spec_cells();
                    render_block_chrome(&mut frame.buffer, area, &spec);
                    proof {
                        lemma_subregion_write_confined(
                            old(frame).buffer.spec_cells(),
                            step,
                            frame.buffer.spec_cells(),
                            old(frame).buffer.spec_area(),
                            crate::layout::spec_clip_area(area),
                            crate::layout::spec_clip_area(area),
                        );
                    }
                },
                Option::None => {},
            }
            Result::Ok(())
        },
        Node::Paragraph(p) => {
            render_paragraph(&mut frame.buffer, area, p);
            Result::Ok(())
        },
        Node::List(l) => render_list_inline(&mut frame.buffer, area, l),
        Node::Table(t) => {
            render_table_inline(&mut frame.buffer, area, t);
            Result::Ok(())
        },
        Node::Tabs(t) => {
            render_tabs(&mut frame.buffer, area, t);
            Result::Ok(())
        },
        Node::Custom(raws) => process_draw_commands(&mut frame.buffer, raws),
    }
}

/// Draws a whole tree over the frame's full area. The entire frame is
/// attempted even when subtrees fail; the first error met is the one
/// surfaced to the caller.
pub fn render_tree(frame: &mut Frame, node: &Node) -> (r: Result<(), BridgeError>)
    requires
        old(frame).wf(),
    ensures
        final(frame).wf(),
        final(frame).buffer.spec_area() == old(frame).buffer.spec_area(),
        // The whole frame is attempted; the first structural error met
        // anywhere in the tree is the one surfaced.
        r == spec_node_result(*node),
{
    let area = frame.buffer.area();
    render_node(frame, area, node)
}

} // verus!
