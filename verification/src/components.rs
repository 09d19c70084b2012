//! What can be attached to an entity of the scene.
use vstd::prelude::*;
use bevy::ecs::entity::Entity;
use crate::geometry::{HalfSize, Vec2};

verus! {

/// Objects and slots are compatible when their groups are equal.
pub type GroupId = u16;

/// The identity of an entity, as `bevy` hands it out. Nothing is known of
/// what it holds: it is carried along and compared.
#[verifier::external_type_specification]
#[verifier::external_body]
pub struct ExEntity(Entity);

/// Calls `Entity::eq` of `bevy`, which compares the bits of the two
/// identities: the result is true exactly for one and the same entity.
#[verifier::external_body]
pub(crate) fn same_entity(a: Entity, b: Entity) -> (same: bool)
    ensures
        same == (a == b),
{
    a == b
}

/// Where an entity's centre is, and how deep it lies.
#[derive(Clone, Copy, Debug, PartialEq, Eq, Structural)]
pub struct Position {
    pub x: i32,
    pub y: i32,
    pub z: i32,
}

/// Marks an object that takes part in hovering.
#[derive(Clone, Copy, Debug, PartialEq, Eq, Structural)]
pub struct Card;

/// Marks an object that can be picked up.
#[derive(Clone, Copy, Debug, PartialEq, Eq, Structural)]
pub struct Draggable;

/// The width and height of one object, where they differ from the default.
#[derive(Clone, Copy, Debug, PartialEq, Eq, Structural)]
pub struct CardSize(pub Vec2);

impl CardSize {
    /// Half of the width and half of the height.
    pub fn half_size(&self) -> (half: HalfSize)
        ensures
            half.twice == self.0,
    {
        HalfSize { twice: self.0 }
    }
}

impl Default for CardSize {
    fn default() -> (size: CardSize)
        ensures
            size.0 == (Vec2 { x: 0, y: 0 }),
    {
        CardSize(Vec2 { x: 0, y: 0 })
    }
}

/// Marks an object that may be placed into the slots of one group.
#[derive(Clone, Copy, Debug, PartialEq, Eq, Structural)]
pub struct Slottable(pub GroupId);

impl Default for Slottable {
    fn default() -> (slottable: Slottable)
        ensures
            slottable.0 == 0,
    {
        Slottable(0)
    }
}

/// A placement target. `card` is the entity that sits in it, if any; the
/// entity itself keeps no record of its slot.
#[derive(Clone, Copy, Debug, PartialEq, Eq)]
pub struct Slot {
    pub size: Vec2,
    pub slot_group: GroupId,
    pub card: Option<Entity>,
}

impl Slot {
    /// Half of the slot's width and height.
    pub fn half_size(&self) -> (half: HalfSize)
        ensures
            half.twice == self.size,
    {
        HalfSize { twice: self.size }
    }
}

impl Default for Slot {
    fn default() -> (slot: Slot)
        ensures
            slot.size == (Vec2 { x: 0, y: 0 }),
            slot.slot_group == 0,
            slot.card.is_none(),
    {
        Slot { size: Vec2 { x: 0, y: 0 }, slot_group: 0, card: None }
    }
}

/// Marks an object that returns to where its drag began when no slot takes it.
#[derive(Clone, Copy, Debug, PartialEq, Eq, Structural)]
pub struct SnapBack;

/// Marks an object that is aligned with the slot that takes it.
#[derive(Clone, Copy, Debug, PartialEq, Eq, Structural)]
pub struct SnapIntoSlot;

/// Marks an object whose depth is allotted at the end of each of its drags.
#[derive(Clone, Copy, Debug, PartialEq, Eq, Structural)]
pub struct AutoZ;

/// Present while the pointer is inside the object's bounds.
#[derive(Clone, Copy, Debug, Default, PartialEq, Eq, Structural)]
pub struct Hovering;

/// Present on the object that is being dragged.
#[derive(Clone, Copy, Debug, Default, PartialEq, Eq, Structural)]
pub struct Dragging;

/// One entity of the scene with everything attached to it. A component that
/// is not attached is `None`.
#[derive(Clone, Copy, Debug, PartialEq, Eq)]
pub struct SceneObject {
    pub entity: Entity,
    pub position: Position,
    pub card: Option<Card>,
    pub draggable: Option<Draggable>,
    pub card_size: Option<CardSize>,
    pub slottable: Option<Slottable>,
    pub slot: Option<Slot>,
    pub snap_back: Option<SnapBack>,
    pub snap_into_slot: Option<SnapIntoSlot>,
    pub auto_z: Option<AutoZ>,
    pub hovering: Option<Hovering>,
    pub dragging: Option<Dragging>,
}

impl SceneObject {
    /// An entity at a position, with nothing attached.
    pub fn new(entity: Entity, position: Position) -> (object: SceneObject)
        ensures
            object == (SceneObject {
                entity,
                position,
                card: None,
                draggable: None,
                card_size: None,
                slottable: None,
                slot: None,
                snap_back: None,
                snap_into_slot: None,
                auto_z: None,
                hovering: None,
                dragging: None,
            }),
    {
        SceneObject {
            entity,
            position,
            card: None,
            draggable: None,
            card_size: None,
            slottable: None,
            slot: None,
            snap_back: None,
            snap_into_slot: None,
            auto_z: None,
            hovering: None,
            dragging: None,
        }
    }

    /// The entity sits in this object's slot.
    pub open spec fn holds(self, card: Entity) -> bool {
        self.slot.is_some() && self.slot.unwrap().card == Some(card)
    }

    /// This object is a slot with nothing in it.
    pub open spec fn is_vacant_slot(self) -> bool {
        self.slot.is_some() && self.slot.unwrap().card.is_none()
    }
}

} // verus!
