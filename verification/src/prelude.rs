//! The names that a host of the card table needs most.
pub use crate::components::{
    AutoZ, Card, CardSize, Draggable, Dragging, Hovering, Position, SceneObject, Slot, Slottable,
    SnapBack, SnapIntoSlot,
};
pub use crate::events::{
    DragEndedMessage, DragStartedMessage, HoverEndedMessage, HoverStartedMessage, Message,
    SlottedIntoMessage, UnknownSlotTargetMessage,
};
pub use crate::plugin::{BevyCardsPlugin, FrameInput, FrameReport, Scene};
