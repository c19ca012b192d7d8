//! Core of a terminal UI bridge: it turns a declarative widget tree into
//! cell-buffer draw operations and terminal input into a canonical event
//! model.
//!
//! The crate owns the design-laden middle of such a bridge: the layout
//! solver, the style resolver, the stateful-widget state store, the draw
//! command protocol, the render dispatcher and the event translation and
//! injection queue. The low-level terminal backend (escape sequences, raw
//! mode, the real screen) stays outside; a thin front end hands this
//! crate plain values and flushes the finished cell buffer.

pub mod block;
pub mod buffer;
pub mod draw;
pub mod error;
pub mod events;
pub mod geometry;
pub mod layout;
pub mod render;
pub mod state;
pub mod strutil;
pub mod style;
pub mod text;
pub mod widgets;
pub mod width;

pub use block::{
    BlockInput, BlockSpec, BorderGlyphs, BorderMask, BorderSetInput, BordersInput, Padding,
    PaddingInput, Title, TitleInput,
};
pub use buffer::{Buffer, Cell};
pub use draw::{CellInput, DrawCommand, RawDrawCommand};
pub use error::{BridgeError, Field};
pub use events::{
    Event, EventData, EventQueue, EventRecord, KeyCode, KeyMods, MouseButton, MouseKind, Poll,
};
pub use geometry::Rect;
pub use layout::{split_layout, Constraint, Direction, Flex};
pub use render::{center_rect, layout_child_areas, render_node, render_tree, Frame, Node};
pub use state::{resolve_offset, ListState, ScrollbarState, TableState};
pub use style::{parse_color, parse_modifier_str, parse_style, Color, Modifiers, Style, StyleInput};
pub use text::{Alignment, Line, LineInput, LineItem, Span, SpanInput, SpanItem, TextInput};
pub use widgets::{ListInput, ParagraphInput, TableInput, TabsInput};
pub use width::{glyph_width, text_width};
