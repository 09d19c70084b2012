//! What the systems report to the host.
use vstd::prelude::*;
use bevy::ecs::entity::Entity;
use crate::geometry::Vec2;

verus! {

/// A drag of the entity began while the pointer was at the point.
#[derive(Clone, Copy, Debug, PartialEq, Eq)]
pub struct DragStartedMessage(pub Entity, pub Vec2);

/// The drag of the entity ended while the pointer was at the point.
#[derive(Clone, Copy, Debug, PartialEq, Eq)]
pub struct DragEndedMessage(pub Entity, pub Vec2);

/// The pointer came inside the entity's bounds.
#[derive(Clone, Copy, Debug, PartialEq, Eq)]
pub struct HoverStartedMessage(pub Entity);

/// The pointer left the entity's bounds.
#[derive(Clone, Copy, Debug, PartialEq, Eq)]
pub struct HoverEndedMessage(pub Entity);

/// The released entity `card` was placed into the slot of entity `slot`.
#[derive(Clone, Copy, Debug, PartialEq, Eq)]
pub struct SlottedIntoMessage {
    pub card: Entity,
    pub slot: Entity,
}

/// The released entity found no slot that would take it.
#[derive(Clone, Copy, Debug, PartialEq, Eq)]
pub struct UnknownSlotTargetMessage(pub Entity);

/// One entry of the queue that a frame fills, in the order of the happenings.
#[derive(Clone, Copy, Debug, PartialEq, Eq)]
pub enum Message {
    DragStarted(DragStartedMessage),
    DragEnded(DragEndedMessage),
    HoverStarted(HoverStartedMessage),
    HoverEnded(HoverEndedMessage),
    SlottedInto(SlottedIntoMessage),
    UnknownSlotTarget(UnknownSlotTargetMessage),
}

} // verus!
