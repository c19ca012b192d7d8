//! Errors for structural contract violations.
//!
//! Cosmetic problems (unknown colour tokens, out-of-bounds writes,
//! mismatched constraint counts) degrade silently elsewhere; these errors
//! are the loud failures: malformed argument shapes and protocol
//! mismatches.

use vstd::prelude::*;

verus! {

/// A field a descriptor must carry.
#[derive(Clone, Copy, Debug, PartialEq, Eq, Structural)]
pub enum Field {
    /// The key code of a key event.
    Code,
    /// The kind of a mouse event.
    Kind,
    /// The column of a mouse event.
    X,
    /// The row of a mouse event.
    Y,
    /// The width of a resize event.
    Width,
    /// The height of a resize event.
    Height,
    /// The pasted text of a paste event.
    Content,
    /// The value of a constraint descriptor.
    Value,
    /// The text of a string draw command.
    Text,
    /// The cell of a cell draw command.
    Cell,
}

/// A structural contract violation.
#[derive(Clone, Copy, Debug, PartialEq, Eq, Structural)]
pub enum BridgeError {
    /// An injected event names a kind outside the event model.
    UnknownEventType,
    /// A mouse event names a kind outside the mouse model.
    UnknownMouseKind,
    /// A draw command names a kind outside the protocol.
    UnknownDrawCommand,
    /// A descriptor lacks a required field.
    MissingField(Field),
    /// A list direction token is neither top-to-bottom nor bottom-to-top.
    UnknownListDirection,
    /// A numeric field does not fit the size its constraint kind takes.
    ValueOutOfRange,
}

} // verus!
