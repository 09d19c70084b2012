//! What holds of the scene in every frame, and why the systems keep it so.
use vstd::prelude::*;
use bevy::ecs::entity::Entity;
use crate::behaviour::{
    after_buttons, any_dragging, button_messages, drag_start, held, hover_ends, hover_messages,
    hover_starts, hovered, origin_after_buttons, release_log, released_through, startable,
    DragTargetPrevPosition, Pointer,
};
use crate::components::SceneObject;
use crate::depth::{is_entity, layered, DepthCounter};
use crate::events::Message;
use crate::plugin::{after_frame, frame_messages, pointer_after, FrameInput, SceneState};
use crate::search::lemma_first_index_sound;
use crate::settings::BevyCardsSettings;
use crate::slots::{
    chosen_slot, evicted, previous_slot, reconciled, release_messages, released, takes,
};

verus! {

/// No two objects of the scene are the same entity.
pub open spec fn distinct_entities(objects: Seq<SceneObject>) -> bool {
    forall|i: int, j: int|
        0 <= i < objects.len() && 0 <= j < objects.len() && (#[trigger] objects[i]).entity == (
        #[trigger] objects[j]).entity ==> i == j
}

/// At most one object is being dragged.
pub open spec fn at_most_one_dragging(objects: Seq<SceneObject>) -> bool {
    forall|i: int, j: int|
        0 <= i < objects.len() && 0 <= j < objects.len() && (#[trigger] objects[i]).dragging.is_some()
            && (#[trigger] objects[j]).dragging.is_some() ==> i == j
}

/// No entity is recorded in two slots.
pub open spec fn single_occupancy(objects: Seq<SceneObject>) -> bool {
    forall|i: int, j: int, card: Entity|
        0 <= i < objects.len() && 0 <= j < objects.len() && (#[trigger] objects[i].holds(card)) && (
        #[trigger] objects[j].holds(card)) ==> i == j
}

/// The scene is as every frame leaves it.
pub open spec fn well_formed(objects: Seq<SceneObject>) -> bool {
    &&& distinct_entities(objects)
    &&& at_most_one_dragging(objects)
    &&& single_occupancy(objects)
}

/// The two scenes hold the same entities in the same order, with the same
/// drags under way.
pub open spec fn same_cast(a: Seq<SceneObject>, b: Seq<SceneObject>) -> bool {
    &&& a.len() == b.len()
    &&& forall|m: int|
        0 <= m < a.len() ==> (#[trigger] a[m]).entity == b[m].entity && a[m].dragging
            == b[m].dragging
}

/// The two scenes record the same occupants in the same slots.
pub open spec fn same_slots(a: Seq<SceneObject>, b: Seq<SceneObject>) -> bool {
    &&& a.len() == b.len()
    &&& forall|m: int| 0 <= m < a.len() ==> (#[trigger] a[m]).slot == b[m].slot
}

/// Scenes with the same entities, drags and slots are well formed together.
pub proof fn lemma_well_formed_carries_over(a: Seq<SceneObject>, b: Seq<SceneObject>)
    requires
        well_formed(a),
        same_cast(a, b),
        same_slots(a, b),
    ensures
        well_formed(b),
{
    assert forall|i: int, j: int|
        0 <= i < b.len() && 0 <= j < b.len() && (#[trigger] b[i]).entity == (#[trigger] b[j]).entity
        implies i == j by {
        assert(a[i].entity == a[j].entity);
    }
    assert forall|i: int, j: int|
        0 <= i < b.len() && 0 <= j < b.len() && (#[trigger] b[i]).dragging.is_some() && (
        #[trigger] b[j]).dragging.is_some() implies i == j by {
        assert(a[i].dragging.is_some() && a[j].dragging.is_some());
    }
    assert forall|i: int, j: int, card: Entity|
        0 <= i < b.len() && 0 <= j < b.len() && (#[trigger] b[i].holds(card)) && (
        #[trigger] b[j].holds(card)) implies i == j by {
        assert(a[i].holds(card) && a[j].holds(card));
    }
}

/// Classifying hovering a second time, with the pointer and the objects
/// where they were, changes nothing and reports nothing.
pub proof fn lemma_hover_is_idempotent(
    objects: Seq<SceneObject>,
    pointer: Pointer,
    settings: BevyCardsSettings,
)
    ensures
        hovered(hovered(objects, pointer, settings), pointer, settings) == hovered(
            objects,
            pointer,
            settings,
        ),
        hover_messages(hovered(objects, pointer, settings), pointer, settings) == Seq::<
            Message,
        >::empty(),
    decreases objects.len(),
{
    let once = hovered(objects, pointer, settings);
    assert(hovered(once, pointer, settings) =~= once);
    if objects.len() > 0 {
        lemma_hover_is_idempotent(objects.drop_last(), pointer, settings);
        assert(once.drop_last() =~= hovered(objects.drop_last(), pointer, settings));
        assert(!hover_starts(once.last(), pointer, settings));
        assert(!hover_ends(once.last(), pointer, settings));
    }
}

/// Classifying hovering touches neither identities, drags nor slots.
pub proof fn lemma_hover_keeps_cast_and_slots(
    objects: Seq<SceneObject>,
    pointer: Pointer,
    settings: BevyCardsSettings,
)
    ensures
        same_cast(objects, hovered(objects, pointer, settings)),
        same_slots(objects, hovered(objects, pointer, settings)),
{
}

/// Holding the dragged object at the pointer touches neither identities,
/// drags nor slots.
pub proof fn lemma_hold_keeps_cast_and_slots(
    objects: Seq<SceneObject>,
    pointer: Pointer,
    origin: DragTargetPrevPosition,
)
    ensures
        same_cast(objects, held(objects, pointer, origin)),
        same_slots(objects, held(objects, pointer, origin)),
{
}

/// What the end of one drag changes: the released object loses its marker,
/// the slot that takes it records it, and nothing else about identities,
/// drags and slots moves.
pub proof fn lemma_release_touches_one_slot(
    objects: Seq<SceneObject>,
    k: int,
    origin: DragTargetPrevPosition,
    settings: BevyCardsSettings,
)
    requires
        0 <= k < objects.len(),
    ensures
        ({
            let after = released(objects, k, origin, settings);
            let card = objects[k];
            &&& after.len() == objects.len()
            &&& forall|m: int| 0 <= m < objects.len() ==> (#[trigger] after[m]).entity == objects[m].entity
            &&& after[k].dragging.is_none()
            &&& forall|m: int|
                0 <= m < objects.len() && m != k ==> (#[trigger] after[m]).dragging
                    == objects[m].dragging
            &&& match chosen_slot(objects, card, settings) {
                Some(j) => {
                    &&& 0 <= j < objects.len()
                    &&& objects[j].is_vacant_slot()
                    &&& after[j].slot.is_some()
                    &&& after[j].slot.unwrap().card == Some(card.entity)
                    &&& forall|m: int|
                        0 <= m < objects.len() && m != j ==> (#[trigger] after[m]).slot
                            == objects[m].slot
                },
                None => same_slots(objects, after),
            }
        }),
{
    lemma_first_index_sound(objects, takes(objects[k], settings));
}

/// While at most one object is being dragged, ending every drag among the
/// first `m` objects is ending that one drag, if it is among them.
pub proof fn lemma_release_of_the_one_drag(
    objects: Seq<SceneObject>,
    m: int,
    origin: DragTargetPrevPosition,
    pointer: Pointer,
    settings: BevyCardsSettings,
)
    requires
        at_most_one_dragging(objects),
        0 <= m <= objects.len(),
    ensures
        forall|k: int|
            0 <= k < m && (#[trigger] objects[k]).dragging.is_some() ==> {
                &&& released_through(objects, m, origin, settings) == released(
                    objects,
                    k,
                    origin,
                    settings,
                )
                &&& release_log(objects, m, origin, pointer, settings) == release_messages(
                    objects,
                    k,
                    pointer,
                    settings,
                )
            },
        (forall|k: int| 0 <= k < m ==> (#[trigger] objects[k]).dragging.is_none()) ==> {
            &&& released_through(objects, m, origin, settings) == objects
            &&& release_log(objects, m, origin, pointer, settings) == Seq::<Message>::empty()
        },
    decreases m,
{
    if m > 0 {
        lemma_release_of_the_one_drag(objects, m - 1, origin, pointer, settings);
        let earlier = released_through(objects, m - 1, origin, settings);
        let log = release_log(objects, m - 1, origin, pointer, settings);
        if objects[m - 1].dragging.is_some() {
            assert forall|k: int| 0 <= k < m - 1 implies (#[trigger] objects[k]).dragging.is_none() by {}
            assert(earlier == objects);
            assert(log + release_messages(objects, m - 1, pointer, settings) =~= release_messages(
                objects,
                m - 1,
                pointer,
                settings,
            ));
        } else {
            assert forall|k: int| 0 <= k < m && (#[trigger] objects[k]).dragging.is_some() implies {
                &&& released_through(objects, m, origin, settings) == released(
                    objects,
                    k,
                    origin,
                    settings,
                )
                &&& release_log(objects, m, origin, pointer, settings) == release_messages(
                    objects,
                    k,
                    pointer,
                    settings,
                )
            } by {
                lemma_release_touches_one_slot(objects, k, origin, settings);
                assert(earlier == released(objects, k, origin, settings));
                assert(earlier[m - 1].dragging == objects[m - 1].dragging);
            }
        }
    }
}

/// Following up two runs of messages one after the other is following up
/// their concatenation.
pub proof fn lemma_reconciled_in_two_runs(
    objects: Seq<SceneObject>,
    first: Seq<Message>,
    second: Seq<Message>,
)
    ensures
        reconciled(objects, first + second) == reconciled(reconciled(objects, first), second),
    decreases second.len(),
{
    if second.len() == 0 {
        assert(first + second =~= first);
    } else {
        lemma_reconciled_in_two_runs(objects, first, second.drop_last());
        assert((first + second).drop_last() =~= first + second.drop_last());
        assert((first + second).last() == second.last());
    }
}

/// Messages among which nothing was placed leave every slot as it is.
pub proof fn lemma_reconciled_without_placement(objects: Seq<SceneObject>, messages: Seq<Message>)
    requires
        forall|i: int| 0 <= i < messages.len() ==> !(#[trigger] messages[i] is SlottedInto),
    ensures
        reconciled(objects, messages) == objects,
    decreases messages.len(),
{
    if messages.len() > 0 {
        let front = messages.drop_last();
        assert forall|i: int| 0 <= i < front.len() implies !(#[trigger] front[i] is SlottedInto) by {
            assert(front[i] == messages[i]);
        }
        lemma_reconciled_without_placement(objects, front);
        assert(messages.last() == messages[messages.len() - 1]);
    }
}

/// Classifying hovering reports nothing but hovering.
pub proof fn lemma_hover_reports_hovering_only(
    objects: Seq<SceneObject>,
    pointer: Pointer,
    settings: BevyCardsSettings,
)
    ensures
        forall|i: int|
            0 <= i < hover_messages(objects, pointer, settings).len() ==> {
                let message = #[trigger] hover_messages(objects, pointer, settings)[i];
                message is HoverStarted || message is HoverEnded
            },
    decreases objects.len(),
{
    if objects.len() > 0 {
        lemma_hover_reports_hovering_only(objects.drop_last(), pointer, settings);
    }
}

/// Following up a placement touches nothing but the card's previous slot:
/// identities and drags stay, and no other entity's record changes.
pub proof fn lemma_eviction_touches_one_card(objects: Seq<SceneObject>, card: Entity, slot: Entity)
    ensures
        same_cast(objects, evicted(objects, card, slot)),
        forall|m: int, other: Entity|
            0 <= m < objects.len() && other != card ==> (#[trigger] evicted(objects, card, slot)[m].holds(
                other,
            )) == objects[m].holds(other),
        forall|m: int|
            0 <= m < objects.len() && (#[trigger] evicted(objects, card, slot)[m]).holds(card)
                ==> objects[m].holds(card),
{
    lemma_first_index_sound(objects, previous_slot(card, slot));
}

/// After a card was placed into a slot and the placement was followed up,
/// that slot is the only one that records the card. This needs the card to
/// have sat in at most one slot before, and entities to be distinct.
pub proof fn lemma_eviction_leaves_one_slot(
    objects: Seq<SceneObject>,
    card: Entity,
    slot: Entity,
    j: int,
)
    requires
        distinct_entities(objects),
        0 <= j < objects.len(),
        objects[j].entity == slot,
        objects[j].holds(card),
        forall|a: int, b: int|
            0 <= a < objects.len() && 0 <= b < objects.len() && a != j && b != j && (
            #[trigger] objects[a]).holds(card) && (#[trigger] objects[b]).holds(card) ==> a == b,
    ensures
        forall|m: int|
            0 <= m < objects.len() ==> ((#[trigger] evicted(objects, card, slot)[m]).holds(card) <==> m
                == j),
{
    lemma_first_index_sound(objects, previous_slot(card, slot));
    let after = evicted(objects, card, slot);
    assert forall|m: int| 0 <= m < objects.len() implies ((#[trigger] after[m]).holds(card) <==> m
        == j) by {
        if m != j && after[m].holds(card) {
            assert(objects[m].holds(card));
            assert(objects[m].entity != objects[j].entity);
            assert(previous_slot(card, slot)(objects[m]));
        }
    }
}

/// Layering by depth touches neither identities, drags nor slots.
pub proof fn lemma_layering_keeps_cast_and_slots(
    objects: Seq<SceneObject>,
    depth: DepthCounter,
    messages: Seq<Message>,
)
    ensures
        same_cast(objects, layered(objects, depth, messages)),
        same_slots(objects, layered(objects, depth, messages)),
    decreases messages.len(),
{
    if messages.len() > 0 {
        lemma_layering_keeps_cast_and_slots(objects, depth, messages.drop_last());
        let earlier = layered(objects, depth, messages.drop_last());
        match messages.last() {
            Message::DragEnded(ended) => {
                lemma_first_index_sound(earlier, is_entity(ended.0));
            },
            _ => {},
        }
    }
}

/// The button's edges of a frame leave at most one object dragged, where
/// at most one was dragged before: a press picks an object up only while
/// none is held, and a release ends every drag.
pub proof fn lemma_buttons_keep_one_drag(
    objects: Seq<SceneObject>,
    origin: DragTargetPrevPosition,
    settings: BevyCardsSettings,
    just_pressed: bool,
    just_released: bool,
)
    requires
        at_most_one_dragging(objects),
    ensures
        at_most_one_dragging(after_buttons(objects, origin, settings, just_pressed, just_released)),
        after_buttons(objects, origin, settings, just_pressed, just_released).len() == objects.len(),
{
    let pointer = Pointer { x: 0, y: 0 };
    let after = after_buttons(objects, origin, settings, just_pressed, just_released);
    match drag_start(objects, just_pressed) {
        Some(i) => {
            lemma_first_index_sound(objects, startable());
            assert forall|a: int, b: int|
                0 <= a < after.len() && 0 <= b < after.len() && (#[trigger] after[a]).dragging.is_some()
                    && (#[trigger] after[b]).dragging.is_some() implies a == b by {
                if a != i {
                    assert(objects[a].dragging.is_some());
                }
                if b != i {
                    assert(objects[b].dragging.is_some());
                }
            }
        },
        None => {
            if just_released {
                lemma_release_of_the_one_drag(
                    objects,
                    objects.len() as int,
                    origin,
                    pointer,
                    settings,
                );
                if any_dragging(objects) {
                    let k = choose|k: int|
                        0 <= k < objects.len() && (#[trigger] objects[k]).dragging.is_some();
                    lemma_release_touches_one_slot(objects, k, origin, settings);
                    assert(after == released(objects, k, origin, settings));
                    assert forall|a: int, b: int|
                        0 <= a < after.len() && 0 <= b < after.len() && (
                        #[trigger] after[a]).dragging.is_some() && (
                        #[trigger] after[b]).dragging.is_some() implies a == b by {
                        if a != k {
                            assert(objects[a].dragging.is_some());
                        }
                    }
                } else {
                    assert(after == objects);
                }
            }
        },
    }
}

/// The button's edges of a frame, with the placements followed up, leave
/// the scene well formed. `next` is the scene as it reaches the follow-up:
/// what the button's edges left, or anything with the same entities, drags
/// and slots.
pub proof fn lemma_buttons_and_follow_up_keep_scene_well_formed(
    objects: Seq<SceneObject>,
    origin: DragTargetPrevPosition,
    pointer: Pointer,
    settings: BevyCardsSettings,
    just_pressed: bool,
    just_released: bool,
    next: Seq<SceneObject>,
)
    requires
        well_formed(objects),
        same_cast(after_buttons(objects, origin, settings, just_pressed, just_released), next),
        same_slots(after_buttons(objects, origin, settings, just_pressed, just_released), next),
    ensures
        well_formed(
            reconciled(
                next,
                button_messages(objects, origin, pointer, settings, just_pressed, just_released),
            ),
        ),
{
    let handled = after_buttons(objects, origin, settings, just_pressed, just_released);
    let sent = button_messages(objects, origin, pointer, settings, just_pressed, just_released);
    lemma_buttons_keep_one_drag(objects, origin, settings, just_pressed, just_released);
    match drag_start(objects, just_pressed) {
        Some(i) => {
            lemma_first_index_sound(objects, startable());
            lemma_reconciled_without_placement(next, sent);
            assert(same_slots(objects, handled));
            lemma_next_is_well_formed(objects, handled, next);
        },
        None => {
            if just_released && any_dragging(objects) {
                lemma_release_of_the_one_drag(
                    objects,
                    objects.len() as int,
                    origin,
                    pointer,
                    settings,
                );
                let k = choose|k: int|
                    0 <= k < objects.len() && (#[trigger] objects[k]).dragging.is_some();
                let card = objects[k];
                lemma_release_touches_one_slot(objects, k, origin, settings);
                lemma_first_index_sound(objects, takes(card, settings));
                assert(handled == released(objects, k, origin, settings));
                assert(sent == release_messages(objects, k, pointer, settings));
                match chosen_slot(objects, card, settings) {
                    Some(j) => {
                        let slot = objects[j].entity;
                        assert(sent.drop_last() =~= seq![sent[0]]);
                        assert(sent.drop_last().drop_last() =~= Seq::<Message>::empty());
                        assert(reconciled(next, sent.drop_last().drop_last()) == next);
                        assert(reconciled(next, sent.drop_last()) == evicted(next, card.entity, slot));
                        assert(reconciled(next, sent) == evicted(next, card.entity, slot));
                        lemma_placed_and_evicted_is_well_formed(objects, handled, next, k, j);
                    },
                    None => {
                        lemma_reconciled_without_placement(next, sent);
                        lemma_next_is_well_formed(objects, handled, next);
                    },
                }
            } else {
                if just_released {
                    lemma_release_of_the_one_drag(
                        objects,
                        objects.len() as int,
                        origin,
                        pointer,
                        settings,
                    );
                }
                assert(handled == objects);
                assert(sent =~= Seq::<Message>::empty());
                lemma_well_formed_carries_over(objects, next);
            }
        },
    }
}

/// A scene that kept the entities and slots of a well-formed one, and in
/// which at most one object is dragged, is well formed.
proof fn lemma_next_is_well_formed(
    objects: Seq<SceneObject>,
    handled: Seq<SceneObject>,
    next: Seq<SceneObject>,
)
    requires
        well_formed(objects),
        at_most_one_dragging(handled),
        handled.len() == objects.len(),
        forall|m: int| 0 <= m < objects.len() ==> (#[trigger] handled[m]).entity == objects[m].entity,
        same_slots(objects, handled),
        same_cast(handled, next),
        same_slots(handled, next),
    ensures
        well_formed(next),
{
    assert forall|a: int, b: int|
        0 <= a < next.len() && 0 <= b < next.len() && (#[trigger] next[a]).entity == (
        #[trigger] next[b]).entity implies a == b by {
        assert(handled[a].entity == handled[b].entity);
        assert(objects[a].entity == objects[b].entity);
    }
    assert forall|a: int, b: int|
        0 <= a < next.len() && 0 <= b < next.len() && (#[trigger] next[a]).dragging.is_some() && (
        #[trigger] next[b]).dragging.is_some() implies a == b by {
        assert(handled[a].dragging.is_some() && handled[b].dragging.is_some());
    }
    assert forall|a: int, b: int, card: Entity|
        0 <= a < next.len() && 0 <= b < next.len() && (#[trigger] next[a].holds(card)) && (
        #[trigger] next[b].holds(card)) implies a == b by {
        assert(handled[a].slot == next[a].slot && handled[b].slot == next[b].slot);
        assert(objects[a].holds(card) && objects[b].holds(card));
    }
}

/// The scene after object `k` was placed into the slot of object `j` and
/// the placement was followed up is well formed.
proof fn lemma_placed_and_evicted_is_well_formed(
    objects: Seq<SceneObject>,
    handled: Seq<SceneObject>,
    next: Seq<SceneObject>,
    k: int,
    j: int,
)
    requires
        well_formed(objects),
        0 <= k < objects.len(),
        0 <= j < objects.len(),
        handled.len() == objects.len(),
        forall|m: int| 0 <= m < objects.len() ==> (#[trigger] handled[m]).entity == objects[m].entity,
        forall|m: int| 0 <= m < objects.len() ==> (#[trigger] handled[m]).dragging.is_none(),
        objects[j].is_vacant_slot(),
        handled[j].slot.is_some(),
        handled[j].slot.unwrap().card == Some(objects[k].entity),
        forall|m: int| 0 <= m < objects.len() && m != j ==> (#[trigger] handled[m]).slot == objects[m].slot,
        same_cast(handled, next),
        same_slots(handled, next),
    ensures
        well_formed(evicted(next, objects[k].entity, objects[j].entity)),
{
    let card = objects[k].entity;
    let slot = objects[j].entity;
    let after = evicted(next, card, slot);
    assert forall|a: int, b: int|
        0 <= a < next.len() && 0 <= b < next.len() && (#[trigger] next[a]).entity == (
        #[trigger] next[b]).entity implies a == b by {
        assert(handled[a].entity == handled[b].entity);
        assert(objects[a].entity == objects[b].entity);
    }
    assert(next[j].slot == handled[j].slot);
    assert(next[j].holds(card));
    assert forall|a: int, b: int|
        0 <= a < next.len() && 0 <= b < next.len() && a != j && b != j && (
        #[trigger] next[a]).holds(card) && (#[trigger] next[b]).holds(card) implies a == b by {
        assert(handled[a].slot == next[a].slot && handled[b].slot == next[b].slot);
        assert(objects[a].holds(card) && objects[b].holds(card));
    }
    lemma_eviction_leaves_one_slot(next, card, slot, j);
    lemma_eviction_touches_one_card(next, card, slot);
    assert forall|a: int, b: int|
        0 <= a < after.len() && 0 <= b < after.len() && (#[trigger] after[a]).entity == (
        #[trigger] after[b]).entity implies a == b by {
        assert(next[a].entity == next[b].entity);
    }
    assert forall|a: int, b: int|
        0 <= a < after.len() && 0 <= b < after.len() && (#[trigger] after[a]).dragging.is_some() && (
        #[trigger] after[b]).dragging.is_some() implies a == b by {
        assert(next[a].dragging.is_some());
        assert(handled[a].dragging.is_some());
    }
    assert forall|a: int, b: int, other: Entity|
        0 <= a < after.len() && 0 <= b < after.len() && (#[trigger] after[a].holds(other)) && (
        #[trigger] after[b].holds(other)) implies a == b by {
        if other != card {
            assert(next[a].holds(other) && next[b].holds(other));
            assert(handled[a].slot == next[a].slot && handled[b].slot == next[b].slot);
            assert(a != j && b != j);
            assert(objects[a].holds(other) && objects[b].holds(other));
        }
    }
}

/// A frame leaves a well-formed scene well formed: no entity twice, at
/// most one object dragged, and no entity recorded in two slots.
pub proof fn lemma_frame_keeps_scene_well_formed(state: SceneState, input: FrameInput)
    requires
        well_formed(state.objects),
    ensures
        well_formed(after_frame(state, input).objects),
        after_frame(state, input).objects.len() == state.objects.len(),
{
    let pointer = pointer_after(state.pointer, input);
    let classified = hovered(state.objects, pointer, state.settings);
    let handled = after_buttons(
        classified,
        state.drag_origin,
        state.settings,
        input.just_pressed,
        input.just_released,
    );
    let origin = origin_after_buttons(classified, state.drag_origin, input.just_pressed);
    let moved = held(handled, pointer, origin);
    let noticed = hover_messages(state.objects, pointer, state.settings);
    let sent = button_messages(
        classified,
        state.drag_origin,
        pointer,
        state.settings,
        input.just_pressed,
        input.just_released,
    );
    let tidied = reconciled(moved, noticed + sent);
    lemma_hover_keeps_cast_and_slots(state.objects, pointer, state.settings);
    lemma_well_formed_carries_over(state.objects, classified);
    lemma_hold_keeps_cast_and_slots(handled, pointer, origin);
    lemma_buttons_and_follow_up_keep_scene_well_formed(
        classified,
        state.drag_origin,
        pointer,
        state.settings,
        input.just_pressed,
        input.just_released,
        moved,
    );
    lemma_hover_reports_hovering_only(state.objects, pointer, state.settings);
    lemma_reconciled_without_placement(moved, noticed);
    lemma_reconciled_in_two_runs(moved, noticed, sent);
    lemma_layering_keeps_cast_and_slots(tidied, state.depth, noticed + sent);
    lemma_well_formed_carries_over(tidied, layered(tidied, state.depth, noticed + sent));
    lemma_buttons_keep_one_drag(
        classified,
        state.drag_origin,
        state.settings,
        input.just_pressed,
        input.just_released,
    );
    lemma_reconciled_keeps_cast(moved, noticed + sent);
}

/// Following up placements touches neither identities nor drags.
pub proof fn lemma_reconciled_keeps_cast(objects: Seq<SceneObject>, messages: Seq<Message>)
    ensures
        same_cast(objects, reconciled(objects, messages)),
    decreases messages.len(),
{
    if messages.len() > 0 {
        lemma_reconciled_keeps_cast(objects, messages.drop_last());
        let earlier = reconciled(objects, messages.drop_last());
        match messages.last() {
            Message::SlottedInto(placed) => {
                lemma_eviction_touches_one_card(earlier, placed.card, placed.slot);
            },
            _ => {},
        }
    }
}

/// Scenes with the same entities and drags have at most one object dragged
/// together.
pub proof fn lemma_one_drag_carries_over(a: Seq<SceneObject>, b: Seq<SceneObject>)
    requires
        at_most_one_dragging(a),
        same_cast(a, b),
    ensures
        at_most_one_dragging(b),
{
    assert forall|i: int, j: int|
        0 <= i < b.len() && 0 <= j < b.len() && (#[trigger] b[i]).dragging.is_some() && (
        #[trigger] b[j]).dragging.is_some() implies i == j by {
        assert(a[i].dragging.is_some() && a[j].dragging.is_some());
    }
}

/// A frame leaves at most one object dragged, where at most one was
/// dragged before it.
pub proof fn lemma_frame_keeps_one_drag(state: SceneState, input: FrameInput)
    requires
        at_most_one_dragging(state.objects),
    ensures
        at_most_one_dragging(after_frame(state, input).objects),
{
    let pointer = pointer_after(state.pointer, input);
    let classified = hovered(state.objects, pointer, state.settings);
    let handled = after_buttons(
        classified,
        state.drag_origin,
        state.settings,
        input.just_pressed,
        input.just_released,
    );
    let origin = origin_after_buttons(classified, state.drag_origin, input.just_pressed);
    let moved = held(handled, pointer, origin);
    let messages = frame_messages(state, input);
    let tidied = reconciled(moved, messages);
    lemma_hover_keeps_cast_and_slots(state.objects, pointer, state.settings);
    lemma_one_drag_carries_over(state.objects, classified);
    lemma_buttons_keep_one_drag(
        classified,
        state.drag_origin,
        state.settings,
        input.just_pressed,
        input.just_released,
    );
    lemma_hold_keeps_cast_and_slots(handled, pointer, origin);
    lemma_one_drag_carries_over(handled, moved);
    lemma_reconciled_keeps_cast(moved, messages);
    lemma_one_drag_carries_over(moved, tidied);
    lemma_layering_keeps_cast_and_slots(tidied, state.depth, messages);
    lemma_one_drag_carries_over(tidied, layered(tidied, state.depth, messages));
}

/// The two scenes hold the same entities in the same order.
pub open spec fn same_entities(a: Seq<SceneObject>, b: Seq<SceneObject>) -> bool {
    &&& a.len() == b.len()
    &&& forall|m: int| 0 <= m < a.len() ==> (#[trigger] a[m]).entity == b[m].entity
}

/// Ending drags neither adds, removes nor reorders entities.
pub proof fn lemma_release_keeps_entities(
    objects: Seq<SceneObject>,
    m: int,
    origin: DragTargetPrevPosition,
    settings: BevyCardsSettings,
)
    requires
        0 <= m <= objects.len(),
    ensures
        same_entities(objects, released_through(objects, m, origin, settings)),
    decreases m,
{
    if m > 0 {
        lemma_release_keeps_entities(objects, m - 1, origin, settings);
        let earlier = released_through(objects, m - 1, origin, settings);
        lemma_release_touches_one_slot(earlier, m - 1, origin, settings);
    }
}

/// A frame neither adds, removes nor reorders entities.
pub proof fn lemma_frame_keeps_entities(state: SceneState, input: FrameInput)
    ensures
        same_entities(state.objects, after_frame(state, input).objects),
{
    let pointer = pointer_after(state.pointer, input);
    let classified = hovered(state.objects, pointer, state.settings);
    let handled = after_buttons(
        classified,
        state.drag_origin,
        state.settings,
        input.just_pressed,
        input.just_released,
    );
    let origin = origin_after_buttons(classified, state.drag_origin, input.just_pressed);
    let moved = held(handled, pointer, origin);
    let messages = frame_messages(state, input);
    let tidied = reconciled(moved, messages);
    lemma_first_index_sound(classified, startable());
    lemma_release_keeps_entities(
        classified,
        classified.len() as int,
        state.drag_origin,
        state.settings,
    );
    assert(same_entities(classified, handled));
    lemma_reconciled_keeps_cast(moved, messages);
    lemma_layering_keeps_cast_and_slots(tidied, state.depth, messages);
    let after = layered(tidied, state.depth, messages);
    assert(after == after_frame(state, input).objects);
    assert forall|m: int| 0 <= m < state.objects.len() implies (#[trigger] state.objects[m]).entity
        == after[m].entity by {
        assert(classified[m].entity == state.objects[m].entity);
        assert(handled[m].entity == classified[m].entity);
        assert(moved[m].entity == handled[m].entity);
        assert(tidied[m].entity == moved[m].entity);
        assert(after[m].entity == tidied[m].entity);
    }
}

} // verus!
