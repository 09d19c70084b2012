use bevy::ecs::entity::Entity;
use bevy_cards::behaviour::{
    clean_up_previous_slotted_state, draggable, DragTargetPrevPosition, Pointer,
};
use bevy_cards::components::{
    Card, CardSize, Dragging, Position, SceneObject, Slot, Slottable, SnapBack, SnapIntoSlot,
};
use bevy_cards::events::{
    DragEndedMessage, HoverStartedMessage, Message, SlottedIntoMessage, UnknownSlotTargetMessage,
};
use bevy_cards::geometry::Vec2;
use bevy_cards::settings::BevyCardsSettings;
use bevy_cards::slots::{does_slot_take, evict, find_slot, occupies, release_object};

fn slot_entity(n: u32) -> Entity {
    Entity::from_raw_u32(n).unwrap()
}

fn slot_at(n: u32, x: i32, y: i32, group: u16) -> SceneObject {
    SceneObject {
        slot: Some(Slot { size: Vec2::new(20, 20), slot_group: group, card: None }),
        ..SceneObject::new(slot_entity(n), Position { x, y, z: 7 })
    }
}

fn held_card(n: u32, x: i32, y: i32, group: u16) -> SceneObject {
    SceneObject {
        card: Some(Card),
        dragging: Some(Dragging),
        slottable: Some(Slottable(group)),
        card_size: Some(CardSize(Vec2::new(10, 10))),
        ..SceneObject::new(slot_entity(n), Position { x, y, z: 0 })
    }
}

fn slot_settings() -> BevyCardsSettings {
    BevyCardsSettings { card_size: Vec2::new(100, 100) }
}

fn occupant(object: &SceneObject) -> Option<Entity> {
    object.slot.unwrap().card
}

#[test]
fn first_of_two_overlapping_slots_is_chosen() {
    let settings = slot_settings();
    let card = held_card(1, 0, 0, 1);
    let scene = vec![slot_at(10, 2, 0, 1), card, slot_at(11, 0, 0, 1)];
    for _ in 0..5 {
        let mut objects = scene.clone();
        assert_eq!(find_slot(&objects, &card, &settings), Some(0));
        let mut messages = Vec::new();
        let mut origin = DragTargetPrevPosition::default();
        draggable(
            &settings,
            &Pointer { x: 0, y: 0 },
            false,
            true,
            &mut origin,
            &mut objects,
            &mut messages,
        );
        assert_eq!(occupant(&objects[0]), Some(slot_entity(1)));
        assert_eq!(occupant(&objects[2]), None);
        assert_eq!(
            messages,
            vec![
                Message::SlottedInto(SlottedIntoMessage {
                    card: slot_entity(1),
                    slot: slot_entity(10)
                }),
                Message::DragEnded(DragEndedMessage(slot_entity(1), Vec2::new(0, 0))),
            ]
        );
    }
    // the order of the scene decides, not the distance
    let swapped = vec![slot_at(11, 0, 0, 1), card, slot_at(10, 2, 0, 1)];
    assert_eq!(find_slot(&swapped, &card, &settings), Some(0));
}

#[test]
fn slots_of_another_group_or_with_an_occupant_are_passed_over() {
    let settings = slot_settings();
    let card = held_card(1, 0, 0, 1);
    let other_group = slot_at(10, 0, 0, 2);
    let mut taken = slot_at(11, 0, 0, 1);
    taken.slot = Some(Slot { card: Some(slot_entity(5)), ..taken.slot.unwrap() });
    let far = slot_at(12, 500, 500, 1);
    let no_slot = SceneObject::new(slot_entity(13), Position { x: 0, y: 0, z: 0 });
    let free = slot_at(14, 0, 0, 1);
    assert!(!does_slot_take(&other_group, &card, &settings));
    assert!(!does_slot_take(&taken, &card, &settings));
    assert!(!does_slot_take(&far, &card, &settings));
    assert!(!does_slot_take(&no_slot, &card, &settings));
    assert!(does_slot_take(&free, &card, &settings));
    let objects = vec![other_group, taken, far, no_slot, card, free];
    assert_eq!(find_slot(&objects, &card, &settings), Some(5));
    assert_eq!(find_slot(&objects[..5].to_vec(), &card, &settings), None);
    // an object that is not slottable goes to no slot
    let plain = SceneObject { slottable: None, ..card };
    assert!(!does_slot_take(&free, &plain, &settings));
    assert_eq!(find_slot(&objects, &plain, &settings), None);
}

#[test]
fn card_that_touches_a_slot_is_placed() {
    let settings = slot_settings();
    // slot of size 20 around 0 reaches to 10; card of size 10 around 15 begins at 10
    let slot = slot_at(10, 0, 0, 1);
    assert!(does_slot_take(&slot, &held_card(1, 15, 0, 1), &settings));
    assert!(does_slot_take(&slot, &held_card(1, -15, -15, 1), &settings));
    assert!(!does_slot_take(&slot, &held_card(1, 16, 0, 1), &settings));
    assert!(!does_slot_take(&slot, &held_card(1, 0, -16, 1), &settings));
}

#[test]
fn default_size_is_used_for_a_card_without_a_size() {
    let settings = slot_settings();
    let slot = slot_at(10, 0, 0, 1);
    // default size 100: the card reaches 50 to each side
    let card = SceneObject { card_size: None, ..held_card(1, 60, 0, 1) };
    assert!(does_slot_take(&slot, &card, &settings));
    assert!(!does_slot_take(&slot, &SceneObject { card_size: None, ..held_card(1, 61, 0, 1) }, &settings));
}

#[test]
fn placed_card_snaps_into_the_slot() {
    let settings = slot_settings();
    let card = SceneObject { snap_into_slot: Some(SnapIntoSlot), ..held_card(1, 3, 4, 1) };
    let mut objects = vec![card, slot_at(10, 1, 2, 1)];
    let mut messages = Vec::new();
    let origin = DragTargetPrevPosition { x: 90, y: 90, z: 90 };
    release_object(&mut objects, 0, &origin, &Pointer { x: 3, y: 4 }, &settings, &mut messages);
    assert_eq!(objects[0].position, Position { x: 1, y: 2, z: 8 });
    assert_eq!(objects[0].dragging, None);
    assert_eq!(occupant(&objects[1]), Some(slot_entity(1)));
    assert_eq!(objects[1].position, Position { x: 1, y: 2, z: 7 });
}

#[test]
fn placed_card_without_snap_stays_where_it_was_dropped() {
    let settings = slot_settings();
    let card = SceneObject { snap_back: Some(SnapBack), ..held_card(1, 3, 4, 1) };
    let mut objects = vec![slot_at(10, 1, 2, 1), card];
    let mut messages = Vec::new();
    let origin = DragTargetPrevPosition { x: 90, y: 90, z: 90 };
    release_object(&mut objects, 1, &origin, &Pointer { x: 3, y: 4 }, &settings, &mut messages);
    assert_eq!(objects[1], SceneObject { dragging: None, ..card });
    assert_eq!(occupant(&objects[0]), Some(slot_entity(1)));
}

#[test]
fn snap_into_a_slot_at_the_greatest_depth_stays_there() {
    let settings = slot_settings();
    let card = SceneObject { snap_into_slot: Some(SnapIntoSlot), ..held_card(1, 0, 0, 1) };
    let mut slot = slot_at(10, 0, 0, 1);
    slot.position.z = i32::MAX;
    let mut objects = vec![card, slot];
    let mut messages = Vec::new();
    release_object(
        &mut objects,
        0,
        &DragTargetPrevPosition::default(),
        &Pointer { x: 0, y: 0 },
        &settings,
        &mut messages,
    );
    assert_eq!(objects[0].position.z, i32::MAX);
}

#[test]
fn failed_placement_reports_and_restores() {
    let settings = slot_settings();
    let card = SceneObject { snap_back: Some(SnapBack), ..held_card(1, 300, 300, 1) };
    let mut objects = vec![slot_at(10, 0, 0, 1), card];
    let mut messages = Vec::new();
    let origin = DragTargetPrevPosition { x: -7, y: -8, z: -9 };
    release_object(&mut objects, 1, &origin, &Pointer { x: 300, y: 300 }, &settings, &mut messages);
    assert_eq!(objects[1].position, Position { x: -7, y: -8, z: -9 });
    assert_eq!(occupant(&objects[0]), None);
    assert_eq!(
        messages,
        vec![
            Message::UnknownSlotTarget(UnknownSlotTargetMessage(slot_entity(1))),
            Message::DragEnded(DragEndedMessage(slot_entity(1), Vec2::new(300, 300))),
        ]
    );
}

#[test]
fn card_moved_from_one_slot_to_another_leaves_the_first() {
    let settings = slot_settings();
    let card = held_card(1, 0, 0, 1);
    let slot_a = slot_at(10, 0, 0, 1);
    let slot_b = slot_at(11, 200, 0, 1);
    let mut objects = vec![slot_a, slot_b, card];
    let mut origin = DragTargetPrevPosition::default();

    // dropped on slot A
    let mut messages = Vec::new();
    draggable(&settings, &Pointer { x: 0, y: 0 }, false, true, &mut origin, &mut objects, &mut messages);
    clean_up_previous_slotted_state(&messages, &mut objects);
    assert_eq!(occupant(&objects[0]), Some(slot_entity(1)));
    assert_eq!(occupant(&objects[1]), None);

    // picked up again and dropped on slot B
    objects[2].dragging = Some(Dragging);
    objects[2].position = Position { x: 200, y: 0, z: 0 };
    let mut messages = Vec::new();
    draggable(&settings, &Pointer { x: 200, y: 0 }, false, true, &mut origin, &mut objects, &mut messages);
    assert_eq!(
        messages[0],
        Message::SlottedInto(SlottedIntoMessage { card: slot_entity(1), slot: slot_entity(11) })
    );
    clean_up_previous_slotted_state(&messages, &mut objects);
    assert_eq!(occupant(&objects[0]), None);
    assert_eq!(occupant(&objects[1]), Some(slot_entity(1)));
    let holding = objects.iter().filter(|o| o.slot.is_some() && occupant(o) == Some(slot_entity(1))).count();
    assert_eq!(holding, 1);
}

#[test]
fn card_dropped_on_its_own_slot_again_stays_out_while_the_slot_is_taken() {
    // the slot still records the card, so it is not vacant and does not take it
    let settings = slot_settings();
    let card = SceneObject { snap_back: Some(SnapBack), ..held_card(1, 0, 0, 1) };
    let mut slot = slot_at(10, 0, 0, 1);
    slot.slot = Some(Slot { card: Some(slot_entity(1)), ..slot.slot.unwrap() });
    let mut objects = vec![slot, card];
    let mut messages = Vec::new();
    let mut origin = DragTargetPrevPosition { x: 5, y: 5, z: 5 };
    draggable(&settings, &Pointer { x: 0, y: 0 }, false, true, &mut origin, &mut objects, &mut messages);
    assert_eq!(messages[0], Message::UnknownSlotTarget(UnknownSlotTargetMessage(slot_entity(1))));
    assert_eq!(objects[1].position, Position { x: 5, y: 5, z: 5 });
    assert_eq!(occupant(&objects[0]), Some(slot_entity(1)));
}

#[test]
fn evict_empties_the_first_other_slot_that_records_the_card() {
    let with = |n: u32, card: Option<u32>| {
        let mut slot = slot_at(n, 0, 0, 1);
        slot.slot = Some(Slot { card: card.map(slot_entity), ..slot.slot.unwrap() });
        slot
    };
    let mut objects = vec![with(10, Some(2)), with(11, Some(1)), with(12, Some(1)), with(13, Some(1))];
    // the card now sits in slot 11: the first other slot with it is 12
    evict(&mut objects, slot_entity(1), slot_entity(11));
    assert_eq!(occupant(&objects[0]), Some(slot_entity(2)));
    assert_eq!(occupant(&objects[1]), Some(slot_entity(1)));
    assert_eq!(occupant(&objects[2]), None);
    assert_eq!(occupant(&objects[3]), Some(slot_entity(1)));
    assert_eq!(objects[2].slot.unwrap().size, Vec2::new(20, 20));
    assert_eq!(objects[2].slot.unwrap().slot_group, 1);
    // a card that sits nowhere else changes nothing
    let before = objects.clone();
    evict(&mut objects, slot_entity(2), slot_entity(10));
    assert_eq!(objects, before);
    evict(&mut objects, slot_entity(7), slot_entity(10));
    assert_eq!(objects, before);
}

#[test]
fn occupies_tells_entities_apart() {
    let slot = Slot { size: Vec2::new(1, 1), slot_group: 0, card: Some(slot_entity(1)) };
    assert!(occupies(&slot, slot_entity(1)));
    assert!(!occupies(&slot, slot_entity(2)));
    assert!(!occupies(&Slot::default(), slot_entity(1)));
}

#[test]
fn follow_up_reads_only_placements() {
    let mut slot = slot_at(10, 0, 0, 1);
    slot.slot = Some(Slot { card: Some(slot_entity(1)), ..slot.slot.unwrap() });
    let mut objects = vec![slot, slot_at(11, 0, 0, 1)];
    let before = objects.clone();
    let messages = vec![
        Message::HoverStarted(HoverStartedMessage(slot_entity(1))),
        Message::UnknownSlotTarget(UnknownSlotTargetMessage(slot_entity(1))),
        Message::DragEnded(DragEndedMessage(slot_entity(1), Vec2::new(0, 0))),
    ];
    clean_up_previous_slotted_state(&messages, &mut objects);
    assert_eq!(objects, before);
    clean_up_previous_slotted_state(&Vec::new(), &mut objects);
    assert_eq!(objects, before);
    let placed = vec![Message::SlottedInto(SlottedIntoMessage {
        card: slot_entity(1),
        slot: slot_entity(11),
    })];
    clean_up_previous_slotted_state(&placed, &mut objects);
    assert_eq!(occupant(&objects[0]), None);
}

#[test]
fn defaults_of_the_components() {
    assert_eq!(Slot::default(), Slot { size: Vec2::new(0, 0), slot_group: 0, card: None });
    assert_eq!(Slottable::default(), Slottable(0));
    assert_eq!(CardSize::default(), CardSize(Vec2::new(0, 0)));
    assert_eq!(Slot { size: Vec2::new(4, 6), ..Slot::default() }.half_size().twice, Vec2::new(4, 6));
}
