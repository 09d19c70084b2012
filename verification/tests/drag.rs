use bevy::ecs::entity::Entity;
use bevy_cards::behaviour::{
    draggable, dragging, find_drag_candidate, is_any_dragging, DragTargetPrevPosition, Pointer,
};
use bevy_cards::components::{
    AutoZ, Card, Draggable, Dragging, Hovering, Position, SceneObject, Slottable, SnapBack,
};
use bevy_cards::events::{DragEndedMessage, DragStartedMessage, Message, UnknownSlotTargetMessage};
use bevy_cards::geometry::Vec2;
use bevy_cards::settings::BevyCardsSettings;

fn drag_entity(n: u32) -> Entity {
    Entity::from_raw_u32(n).unwrap()
}

fn hovered_card(n: u32, x: i32, y: i32, z: i32) -> SceneObject {
    SceneObject {
        card: Some(Card),
        draggable: Some(Draggable),
        hovering: Some(Hovering),
        ..SceneObject::new(drag_entity(n), Position { x, y, z })
    }
}

fn drag_settings() -> BevyCardsSettings {
    BevyCardsSettings { card_size: Vec2::new(100, 100) }
}

#[test]
fn press_picks_up_the_first_hovered_draggable_card() {
    let not_draggable = SceneObject { draggable: None, ..hovered_card(1, 0, 0, 0) };
    let not_hovered = SceneObject { hovering: None, ..hovered_card(2, 0, 0, 0) };
    let no_card = SceneObject { card: None, ..hovered_card(3, 0, 0, 0) };
    let first = hovered_card(4, 7, 8, 9);
    let second = hovered_card(5, 1, 2, 3);
    let mut objects = vec![not_draggable, not_hovered, no_card, first, second];
    assert_eq!(find_drag_candidate(&objects), Some(3));

    let mut origin = DragTargetPrevPosition { x: -1, y: -1, z: -1 };
    let mut messages = Vec::new();
    let pointer = Pointer { x: 5, y: 6 };
    draggable(&drag_settings(), &pointer, true, false, &mut origin, &mut objects, &mut messages);

    assert_eq!(objects[3], SceneObject { dragging: Some(Dragging), ..first });
    assert_eq!(objects[4], second);
    assert_eq!(objects[0], not_draggable);
    assert_eq!(origin, DragTargetPrevPosition { x: 7, y: 8, z: 9 });
    assert_eq!(
        messages,
        vec![Message::DragStarted(DragStartedMessage(drag_entity(4), Vec2::new(5, 6)))]
    );
    assert!(is_any_dragging(&objects));
}

#[test]
fn press_without_a_candidate_does_nothing() {
    let mut objects = vec![SceneObject { hovering: None, ..hovered_card(1, 0, 0, 0) }];
    let before = objects.clone();
    let mut origin = DragTargetPrevPosition { x: 1, y: 2, z: 3 };
    let mut messages = Vec::new();
    draggable(
        &drag_settings(),
        &Pointer { x: 0, y: 0 },
        true,
        false,
        &mut origin,
        &mut objects,
        &mut messages,
    );
    assert_eq!(objects, before);
    assert_eq!(origin, DragTargetPrevPosition { x: 1, y: 2, z: 3 });
    assert!(messages.is_empty());
    assert_eq!(find_drag_candidate(&objects), None);
    assert!(!is_any_dragging(&objects));
}

#[test]
fn press_while_an_object_is_dragged_starts_no_second_drag() {
    let held = SceneObject { dragging: Some(Dragging), ..hovered_card(1, 0, 0, 0) };
    let other = hovered_card(2, 0, 0, 0);
    let mut objects = vec![held, other];
    let mut origin = DragTargetPrevPosition { x: 1, y: 2, z: 3 };
    let mut messages = Vec::new();
    draggable(
        &drag_settings(),
        &Pointer { x: 0, y: 0 },
        true,
        false,
        &mut origin,
        &mut objects,
        &mut messages,
    );
    assert_eq!(objects, vec![held, other]);
    assert_eq!(origin, DragTargetPrevPosition { x: 1, y: 2, z: 3 });
    assert!(messages.is_empty());
    assert_eq!(objects.iter().filter(|o| o.dragging.is_some()).count(), 1);
}

#[test]
fn no_edge_does_nothing() {
    let held = SceneObject { dragging: Some(Dragging), ..hovered_card(1, 0, 0, 0) };
    let mut objects = vec![held, hovered_card(2, 0, 0, 0)];
    let before = objects.clone();
    let mut origin = DragTargetPrevPosition::default();
    let mut messages = Vec::new();
    draggable(
        &drag_settings(),
        &Pointer { x: 0, y: 0 },
        false,
        false,
        &mut origin,
        &mut objects,
        &mut messages,
    );
    assert_eq!(objects, before);
    assert!(messages.is_empty());
}

#[test]
fn release_of_an_object_that_is_not_slottable_leaves_it_where_it_is() {
    let held = SceneObject {
        dragging: Some(Dragging),
        snap_back: Some(SnapBack),
        ..hovered_card(1, 40, 50, 6)
    };
    let mut objects = vec![held];
    let mut origin = DragTargetPrevPosition { x: 0, y: 0, z: 0 };
    let mut messages = Vec::new();
    draggable(
        &drag_settings(),
        &Pointer { x: 41, y: 51 },
        false,
        true,
        &mut origin,
        &mut objects,
        &mut messages,
    );
    assert_eq!(objects, vec![SceneObject { dragging: None, ..held }]);
    assert_eq!(
        messages,
        vec![Message::DragEnded(DragEndedMessage(drag_entity(1), Vec2::new(41, 51)))]
    );
    assert_eq!(origin, DragTargetPrevPosition { x: 0, y: 0, z: 0 });
}

#[test]
fn release_without_a_slot_snaps_back() {
    let card = SceneObject {
        slottable: Some(Slottable(1)),
        snap_back: Some(SnapBack),
        ..hovered_card(1, 10, 20, 3)
    };
    let mut objects = vec![card];
    let mut origin = DragTargetPrevPosition::default();
    let mut messages = Vec::new();
    let settings = drag_settings();

    draggable(&settings, &Pointer { x: 10, y: 20 }, true, false, &mut origin, &mut objects, &mut messages);
    assert_eq!(origin, DragTargetPrevPosition { x: 10, y: 20, z: 3 });
    let pointer = Pointer { x: 300, y: -200 };
    dragging(&pointer, &origin, &mut objects);
    assert_eq!(objects[0].position, Position { x: 300, y: -200, z: 3 });

    messages.clear();
    draggable(&settings, &pointer, false, true, &mut origin, &mut objects, &mut messages);
    assert_eq!(
        messages,
        vec![
            Message::UnknownSlotTarget(UnknownSlotTargetMessage(drag_entity(1))),
            Message::DragEnded(DragEndedMessage(drag_entity(1), Vec2::new(300, -200))),
        ]
    );
    assert_eq!(objects[0].position, Position { x: 10, y: 20, z: 3 });
    assert_eq!(objects[0].dragging, None);
}

#[test]
fn release_without_a_slot_and_without_snap_back_stays() {
    let card = SceneObject {
        slottable: Some(Slottable(1)),
        dragging: Some(Dragging),
        ..hovered_card(1, 300, -200, 3)
    };
    let mut objects = vec![card];
    let mut origin = DragTargetPrevPosition { x: 10, y: 20, z: 3 };
    let mut messages = Vec::new();
    draggable(
        &drag_settings(),
        &Pointer { x: 300, y: -200 },
        false,
        true,
        &mut origin,
        &mut objects,
        &mut messages,
    );
    assert_eq!(objects, vec![SceneObject { dragging: None, ..card }]);
    assert_eq!(messages.len(), 2);
    assert_eq!(messages[0], Message::UnknownSlotTarget(UnknownSlotTargetMessage(drag_entity(1))));
}

#[test]
fn press_and_release_in_one_frame_with_nothing_held_only_starts() {
    let card = hovered_card(1, 10, 20, 3);
    let mut objects = vec![card];
    let mut origin = DragTargetPrevPosition::default();
    let mut messages = Vec::new();
    draggable(
        &drag_settings(),
        &Pointer { x: 0, y: 0 },
        true,
        true,
        &mut origin,
        &mut objects,
        &mut messages,
    );
    assert_eq!(objects[0].dragging, Some(Dragging));
    assert_eq!(
        messages,
        vec![Message::DragStarted(DragStartedMessage(drag_entity(1), Vec2::new(0, 0)))]
    );
}

#[test]
fn press_and_release_in_one_frame_with_an_object_held_only_releases() {
    let held = SceneObject { dragging: Some(Dragging), ..hovered_card(1, 0, 0, 0) };
    let other = hovered_card(2, 0, 0, 0);
    let mut objects = vec![held, other];
    let mut origin = DragTargetPrevPosition::default();
    let mut messages = Vec::new();
    draggable(
        &drag_settings(),
        &Pointer { x: 0, y: 0 },
        true,
        true,
        &mut origin,
        &mut objects,
        &mut messages,
    );
    assert_eq!(objects, vec![SceneObject { dragging: None, ..held }, other]);
    assert_eq!(
        messages,
        vec![Message::DragEnded(DragEndedMessage(drag_entity(1), Vec2::new(0, 0)))]
    );
}

#[test]
fn release_ends_every_drag_in_the_order_of_the_scene() {
    let a = SceneObject { dragging: Some(Dragging), ..hovered_card(1, 0, 0, 0) };
    let b = hovered_card(2, 0, 0, 0);
    let c = SceneObject { dragging: Some(Dragging), ..hovered_card(3, 0, 0, 0) };
    let mut objects = vec![a, b, c];
    let mut origin = DragTargetPrevPosition::default();
    let mut messages = Vec::new();
    draggable(
        &drag_settings(),
        &Pointer { x: 1, y: 1 },
        false,
        true,
        &mut origin,
        &mut objects,
        &mut messages,
    );
    assert!(!is_any_dragging(&objects));
    assert_eq!(
        messages,
        vec![
            Message::DragEnded(DragEndedMessage(drag_entity(1), Vec2::new(1, 1))),
            Message::DragEnded(DragEndedMessage(drag_entity(3), Vec2::new(1, 1))),
        ]
    );
}

#[test]
fn held_object_follows_the_pointer() {
    let held = SceneObject { dragging: Some(Dragging), ..hovered_card(1, 0, 0, 5) };
    let resting = hovered_card(2, 3, 4, 5);
    let mut objects = vec![held, resting];
    let origin = DragTargetPrevPosition { x: 0, y: 0, z: 40 };
    dragging(&Pointer { x: 11, y: -12 }, &origin, &mut objects);
    // without automatic depth the depth is left alone
    assert_eq!(objects[0].position, Position { x: 11, y: -12, z: 5 });
    assert_eq!(objects[0].dragging, Some(Dragging));
    assert_eq!(objects[1], resting);
}

#[test]
fn held_object_with_automatic_depth_is_drawn_above_its_layer() {
    let held = SceneObject {
        dragging: Some(Dragging),
        auto_z: Some(AutoZ),
        ..hovered_card(1, 0, 0, 40)
    };
    let mut objects = vec![held];
    let origin = DragTargetPrevPosition { x: 0, y: 0, z: 40 };
    dragging(&Pointer { x: 1, y: 2 }, &origin, &mut objects);
    assert_eq!(objects[0].position, Position { x: 1, y: 2, z: 41 });
    // holding on does not raise it further
    dragging(&Pointer { x: 3, y: 4 }, &origin, &mut objects);
    assert_eq!(objects[0].position, Position { x: 3, y: 4, z: 41 });
    // at the greatest depth it stays there
    let top = DragTargetPrevPosition { x: 0, y: 0, z: i32::MAX };
    dragging(&Pointer { x: 3, y: 4 }, &top, &mut objects);
    assert_eq!(objects[0].position.z, i32::MAX);
}
