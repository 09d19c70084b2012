//! Placing a released object into a slot.
use vstd::prelude::*;
use bevy::ecs::entity::Entity;
use crate::behaviour::{half_size_of, measured_half_size, DragTargetPrevPosition, Pointer};
use crate::components::{same_entity, Position, SceneObject, Slot};
use crate::events::{DragEndedMessage, Message, SlottedIntoMessage, UnknownSlotTargetMessage};
use crate::geometry::{Aabb2d, HalfSize, Vec2};
use crate::search::{
    first_index, lemma_first_index_found, lemma_first_index_none, lemma_first_index_sound,
};
use crate::settings::BevyCardsSettings;

verus! {

/// How far above its layer a held object is drawn, and how far above a slot
/// the object that snapped into it.
pub const DRAG_Z_DELTA: i32 = 1;

/// The depth `z`, brought back into the range of a depth where it left it.
pub open spec fn clamped(z: int) -> i32 {
    if z > i32::MAX {
        i32::MAX
    } else if z < i32::MIN {
        i32::MIN
    } else {
        z as i32
    }
}

/// Adds to a depth, stopping at the least and at the greatest depth.
pub fn raise(z: i32, by: i32) -> (raised: i32)
    ensures
        raised == clamped(z + by),
{
    let sum: i64 = z as i64 + by as i64;
    if sum > i32::MAX as i64 {
        i32::MAX
    } else if sum < i32::MIN as i64 {
        i32::MIN
    } else {
        sum as i32
    }
}

/// The box of a slot: around its position, half of its size to each side.
pub open spec fn slot_box(object: SceneObject) -> Aabb2d {
    Aabb2d {
        center: Vec2 { x: object.position.x, y: object.position.y },
        half_size: HalfSize { twice: object.slot.unwrap().size },
    }
}

/// The box of an object: around its position, its half size to each side.
pub open spec fn card_box(object: SceneObject, settings: BevyCardsSettings) -> Aabb2d {
    Aabb2d {
        center: Vec2 { x: object.position.x, y: object.position.y },
        half_size: half_size_of(object, settings),
    }
}

/// The slot of `target` takes the released `card`: it is of the card's
/// group, it is vacant, and the two boxes intersect, edges included.
pub open spec fn slot_takes(
    target: SceneObject,
    card: SceneObject,
    settings: BevyCardsSettings,
) -> bool {
    &&& target.slot.is_some()
    &&& card.slottable.is_some()
    &&& target.slot.unwrap().slot_group == card.slottable.unwrap().0
    &&& target.slot.unwrap().card.is_none()
    &&& slot_box(target).overlaps(card_box(card, settings))
}

/// `slot_takes` as a predicate on the slot.
pub open spec fn takes(
    card: SceneObject,
    settings: BevyCardsSettings,
) -> spec_fn(SceneObject) -> bool {
    |target: SceneObject| slot_takes(target, card, settings)
}

/// The slot that a released card goes to: the first in the scene's order
/// that takes it. No slot is preferred for being nearer or fitting better.
pub open spec fn chosen_slot(
    objects: Seq<SceneObject>,
    card: SceneObject,
    settings: BevyCardsSettings,
) -> Option<int> {
    first_index(objects, takes(card, settings))
}

/// The chosen slot takes the card, and no slot before it in the scene's
/// order does. Where no slot is chosen, none takes the card.
pub proof fn lemma_chosen_slot_is_first(
    objects: Seq<SceneObject>,
    card: SceneObject,
    settings: BevyCardsSettings,
)
    ensures
        match chosen_slot(objects, card, settings) {
            Some(j) => {
                &&& 0 <= j < objects.len()
                &&& slot_takes(objects[j], card, settings)
                &&& forall|k: int| 0 <= k < j ==> !slot_takes(#[trigger] objects[k], card, settings)
            },
            None => forall|k: int|
                0 <= k < objects.len() ==> !slot_takes(#[trigger] objects[k], card, settings),
        },
{
    lemma_first_index_sound(objects, takes(card, settings));
    match chosen_slot(objects, card, settings) {
        Some(j) => {
            assert forall|k: int| 0 <= k < j implies !slot_takes(
                #[trigger] objects[k],
                card,
                settings,
            ) by {
                assert(!takes(card, settings)(objects[k]));
            }
        },
        None => {
            assert forall|k: int| 0 <= k < objects.len() implies !slot_takes(
                #[trigger] objects[k],
                card,
                settings,
            ) by {
                assert(!takes(card, settings)(objects[k]));
            }
        },
    }
}

/// Tests whether the slot of `target` takes the released `card`.
pub fn does_slot_take(
    target: &SceneObject,
    card: &SceneObject,
    settings: &BevyCardsSettings,
) -> (yes: bool)
    ensures
        yes == slot_takes(*target, *card, *settings),
{
    match (target.slot, card.slottable) {
        (Some(slot), Some(slottable)) => {
            if slottable.0 != slot.slot_group {
                return false;
            }
            if slot.card.is_some() {
                return false;
            }
            let slot_aabb = Aabb2d::new(
                Vec2::new(target.position.x, target.position.y),
                slot.half_size(),
            );
            let card_aabb = Aabb2d::new(
                Vec2::new(card.position.x, card.position.y),
                measured_half_size(card, settings),
            );
            slot_aabb.intersects(&card_aabb)
        },
        _ => false,
    }
}

/// Finds the slot that a released card goes to.
pub fn find_slot(
    objects: &Vec<SceneObject>,
    card: &SceneObject,
    settings: &BevyCardsSettings,
) -> (found: Option<usize>)
    ensures
        match found {
            Some(j) => j < objects@.len() && chosen_slot(objects@, *card, *settings) == Some(
                j as int,
            ),
            None => chosen_slot(objects@, *card, *settings).is_none(),
        },
{
    let n = objects.len();
    let mut j: usize = 0;
    while j < n
        invariant
            j <= n,
            n == objects@.len(),
            forall|k: int| 0 <= k < j ==> !takes(*card, *settings)(#[trigger] objects@[k]),
        decreases n - j,
    {
        if does_slot_take(&objects[j], card, settings) {
            proof {
                lemma_first_index_found(objects@, takes(*card, *settings), j as int);
            }
            return Some(j);
        }
        j += 1;
    }
    proof {
        lemma_first_index_none(objects@, takes(*card, *settings));
    }
    None
}

/// The object with its drag ended.
pub open spec fn dropped(object: SceneObject) -> SceneObject {
    SceneObject { dragging: None, ..object }
}

/// The slot-bearing object with `card` recorded as what sits in its slot.
pub open spec fn occupied_by(target: SceneObject, card: Entity) -> SceneObject {
    SceneObject { slot: Some(Slot { card: Some(card), ..target.slot.unwrap() }), ..target }
}

/// The object aligned with a slot at `slot`, and drawn just above it.
pub open spec fn snapped_into(object: SceneObject, slot: Position) -> SceneObject {
    SceneObject {
        position: Position { x: slot.x, y: slot.y, z: clamped(slot.z + DRAG_Z_DELTA) },
        ..object
    }
}

/// The object back where its drag began.
pub open spec fn snapped_back(object: SceneObject, origin: DragTargetPrevPosition) -> SceneObject {
    SceneObject { position: Position { x: origin.x, y: origin.y, z: origin.z }, ..object }
}

/// The scene after the drag of object `k` ended. The object loses its
/// marker. Where it is slottable, the slot that `chosen_slot` gives records
/// it, and the object is aligned with that slot if it snaps into slots;
/// where no slot takes it, it returns to `origin` if it snaps back. In every
/// other case it stays where it was dropped.
pub open spec fn released(
    objects: Seq<SceneObject>,
    k: int,
    origin: DragTargetPrevPosition,
    settings: BevyCardsSettings,
) -> Seq<SceneObject> {
    let card = objects[k];
    let lowered = objects.update(k, dropped(card));
    if card.slottable.is_none() {
        lowered
    } else {
        match chosen_slot(objects, card, settings) {
            Some(j) => {
                let filled = lowered.update(j, occupied_by(lowered[j], card.entity));
                if card.snap_into_slot.is_some() {
                    filled.update(k, snapped_into(filled[k], objects[j].position))
                } else {
                    filled
                }
            },
            None => if card.snap_back.is_some() {
                lowered.update(k, snapped_back(lowered[k], origin))
            } else {
                lowered
            },
        }
    }
}

/// The messages of the end of the drag of object `k`: what became of the
/// placement, where one was tried, and then, always and once, that the drag
/// ended.
pub open spec fn release_messages(
    objects: Seq<SceneObject>,
    k: int,
    pointer: Pointer,
    settings: BevyCardsSettings,
) -> Seq<Message> {
    let card = objects[k];
    let ended = Message::DragEnded(
        DragEndedMessage(card.entity, Vec2 { x: pointer.x, y: pointer.y }),
    );
    if card.slottable.is_none() {
        seq![ended]
    } else {
        match chosen_slot(objects, card, settings) {
            Some(j) => seq![
                Message::SlottedInto(SlottedIntoMessage { card: card.entity, slot: objects[j].entity }),
                ended,
            ],
            None => seq![Message::UnknownSlotTarget(UnknownSlotTargetMessage(card.entity)), ended],
        }
    }
}

/// Ends the drag of object `k` and, where it is slottable, tries once to
/// place it.
pub fn release_object(
    objects: &mut Vec<SceneObject>,
    k: usize,
    origin: &DragTargetPrevPosition,
    pointer: &Pointer,
    settings: &BevyCardsSettings,
    messages: &mut Vec<Message>,
)
    requires
        k < old(objects)@.len(),
    ensures
        final(objects)@.len() == old(objects)@.len(),
        final(objects)@ == released(old(objects)@, k as int, *origin, *settings),
        final(messages)@ == old(messages)@ + release_messages(
            old(objects)@,
            k as int,
            *pointer,
            *settings,
        ),
{
    let ghost before = objects@;
    let ghost sent = messages@;
    let card = objects[k];
    let mut moved = card;
    moved.dragging = None;
    if card.slottable.is_some() {
        match find_slot(objects, &card, settings) {
            Some(j) => {
                proof {
                    lemma_first_index_sound(before, takes(card, *settings));
                }
                let slot_entity = objects[j].entity;
                let at = objects[j].position;
                objects.set(k, moved);
                let mut target = objects[j];
                if let Some(slot) = target.slot {
                    target.slot = Some(
                        Slot { size: slot.size, slot_group: slot.slot_group, card: Some(card.entity) },
                    );
                }
                objects.set(j, target);
                if card.snap_into_slot.is_some() {
                    let mut aligned = objects[k];
                    aligned.position = Position { x: at.x, y: at.y, z: raise(at.z, DRAG_Z_DELTA) };
                    objects.set(k, aligned);
                }
                messages.push(
                    Message::SlottedInto(SlottedIntoMessage { card: card.entity, slot: slot_entity }),
                );
            },
            None => {
                messages.push(Message::UnknownSlotTarget(UnknownSlotTargetMessage(card.entity)));
                if card.snap_back.is_some() {
                    moved.position = Position { x: origin.x, y: origin.y, z: origin.z };
                }
                objects.set(k, moved);
            },
        }
    } else {
        objects.set(k, moved);
    }
    messages.push(
        Message::DragEnded(DragEndedMessage(card.entity, Vec2 { x: pointer.x, y: pointer.y })),
    );
    proof {
        assert(objects@ =~= released(before, k as int, *origin, *settings));
        assert(messages@ =~= sent + release_messages(before, k as int, *pointer, *settings));
    }
}

/// The object is the slot that `card` sat in before it was placed into the
/// slot of entity `slot`: another entity than `slot`, with `card` recorded.
pub open spec fn is_previous_slot(object: SceneObject, card: Entity, slot: Entity) -> bool {
    object.entity != slot && object.holds(card)
}

/// `is_previous_slot` as a predicate on the object.
pub open spec fn previous_slot(card: Entity, slot: Entity) -> spec_fn(SceneObject) -> bool {
    |object: SceneObject| is_previous_slot(object, card, slot)
}

/// The slot-bearing object with nothing in its slot.
pub open spec fn vacated(object: SceneObject) -> SceneObject {
    SceneObject { slot: Some(Slot { card: None, ..object.slot.unwrap() }), ..object }
}

/// The scene after `card` was placed into the slot of entity `slot`: the
/// first other slot that still records `card` is emptied.
pub open spec fn evicted(objects: Seq<SceneObject>, card: Entity, slot: Entity) -> Seq<SceneObject> {
    match first_index(objects, previous_slot(card, slot)) {
        Some(j) => objects.update(j, vacated(objects[j])),
        None => objects,
    }
}

/// The scene after every placement among `messages` was followed up, in the
/// order of the messages. Other messages change nothing.
pub open spec fn reconciled(objects: Seq<SceneObject>, messages: Seq<Message>) -> Seq<SceneObject>
    decreases messages.len(),
{
    if messages.len() == 0 {
        objects
    } else {
        let earlier = reconciled(objects, messages.drop_last());
        match messages.last() {
            Message::SlottedInto(placed) => evicted(earlier, placed.card, placed.slot),
            _ => earlier,
        }
    }
}

/// Tests whether `card` is recorded in the slot.
pub fn occupies(slot: &Slot, card: Entity) -> (yes: bool)
    ensures
        yes == (slot.card == Some(card)),
{
    match slot.card {
        Some(occupant) => same_entity(occupant, card),
        None => false,
    }
}

/// Empties the slot that `card` sat in before it was placed into the slot
/// of entity `slot`, if there is one.
pub fn evict(objects: &mut Vec<SceneObject>, card: Entity, slot: Entity)
    ensures
        final(objects)@ == evicted(old(objects)@, card, slot),
{
    let n = objects.len();
    let mut j: usize = 0;
    while j < n
        invariant
            j <= n,
            n == objects@.len(),
            objects@ == old(objects)@,
            forall|k: int| 0 <= k < j ==> !previous_slot(card, slot)(#[trigger] objects@[k]),
        decreases n - j,
    {
        let mut object = objects[j];
        if !same_entity(object.entity, slot) {
            if let Some(held) = object.slot {
                if occupies(&held, card) {
                    proof {
                        lemma_first_index_found(objects@, previous_slot(card, slot), j as int);
                    }
                    object.slot = Some(
                        Slot { size: held.size, slot_group: held.slot_group, card: None },
                    );
                    objects.set(j, object);
                    return ;
                }
            }
        }
        j += 1;
    }
    proof {
        lemma_first_index_none(objects@, previous_slot(card, slot));
    }
}

} // verus!
