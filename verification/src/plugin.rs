//! The scene as a whole, and the frame that runs the systems over it.
use vstd::prelude::*;
use crate::behaviour::{
    after_buttons, button_messages, clean_up_previous_slotted_state, draggable, dragging, held,
    hover_messages, hoverable, hovered, origin_after_buttons, pointer_update, update_pointer,
    DragTargetPrevPosition, Pointer, PointerUpdate,
};
use crate::components::SceneObject;
use crate::depth::{auto_z, depth_after, layered, DepthCounter};
use crate::events::Message;
use crate::geometry::Vec2;
use crate::invariants::{
    at_most_one_dragging, lemma_frame_keeps_entities, lemma_frame_keeps_one_drag,
    lemma_frame_keeps_scene_well_formed, same_entities, well_formed,
};
use crate::settings::BevyCardsSettings;
use crate::slots::reconciled;

verus! {

/// Sets a scene up with the default size of its objects.
#[derive(Clone, Copy, Debug, PartialEq, Eq, Structural)]
pub struct BevyCardsPlugin {
    pub card_size: Vec2,
}

/// Everything that the systems read and write: the settings, the pointer,
/// the record of where the drag began, the depth counter, and the entities
/// in the order in which the systems go through them.
#[derive(Debug)]
pub struct Scene {
    pub settings: BevyCardsSettings,
    pub pointer: Pointer,
    pub drag_origin: DragTargetPrevPosition,
    pub depth: DepthCounter,
    pub objects: Vec<SceneObject>,
}

/// A scene as a value: what `Scene` holds, with the entities as a sequence.
pub struct SceneState {
    pub settings: BevyCardsSettings,
    pub pointer: Pointer,
    pub drag_origin: DragTargetPrevPosition,
    pub depth: DepthCounter,
    pub objects: Seq<SceneObject>,
}

impl View for Scene {
    type V = SceneState;

    open spec fn view(&self) -> SceneState {
        SceneState {
            settings: self.settings,
            pointer: self.pointer,
            drag_origin: self.drag_origin,
            depth: self.depth,
            objects: self.objects@,
        }
    }
}

/// What the host reports for one frame: how many cameras and primary windows
/// it found, the cursor projected into the scene (`None` while it is outside
/// the viewport), and whether the button went down or up in this frame.
#[derive(Clone, Copy, Debug, PartialEq, Eq, Structural)]
pub struct FrameInput {
    pub cameras: usize,
    pub windows: usize,
    pub cursor: Option<Vec2>,
    pub just_pressed: bool,
    pub just_released: bool,
}

/// What one frame reports to the host: what became of the reading of the
/// pointer, which the host may want to log, and the frame's messages in the
/// order in which they were produced.
#[derive(Debug)]
pub struct FrameReport {
    pub pointer: PointerUpdate,
    pub messages: Vec<Message>,
}

/// The pointer after a frame's reading: the cursor's position where there
/// is exactly one camera, exactly one window and a cursor, and the value it
/// had otherwise.
pub open spec fn pointer_after(pointer: Pointer, input: FrameInput) -> Pointer {
    if pointer_update(input.cameras, input.windows, input.cursor) == PointerUpdate::Moved {
        Pointer { x: input.cursor.unwrap().x, y: input.cursor.unwrap().y }
    } else {
        pointer
    }
}

/// The messages of one frame: those of the classification of hovering,
/// then those of the button's edges, which see the scene as the
/// classification left it.
pub open spec fn frame_messages(state: SceneState, input: FrameInput) -> Seq<Message> {
    let pointer = pointer_after(state.pointer, input);
    let classified = hovered(state.objects, pointer, state.settings);
    hover_messages(state.objects, pointer, state.settings) + button_messages(
        classified,
        state.drag_origin,
        pointer,
        state.settings,
        input.just_pressed,
        input.just_released,
    )
}

/// The scene after one frame. The systems run in a fixed order, and each
/// sees what the one before it left: the pointer is read, hovering is
/// classified, the button's edges start or end drags and place what was
/// released, held objects follow the pointer, placements are followed up in
/// the slots, and ended drags are layered by depth.
pub open spec fn after_frame(state: SceneState, input: FrameInput) -> SceneState {
    let pointer = pointer_after(state.pointer, input);
    let classified = hovered(state.objects, pointer, state.settings);
    let handled = after_buttons(
        classified,
        state.drag_origin,
        state.settings,
        input.just_pressed,
        input.just_released,
    );
    let origin = origin_after_buttons(classified, state.drag_origin, input.just_pressed);
    let moved = held(handled, pointer, origin);
    let messages = frame_messages(state, input);
    let tidied = reconciled(moved, messages);
    SceneState {
        settings: state.settings,
        pointer,
        drag_origin: origin,
        depth: depth_after(tidied, state.depth, messages),
        objects: layered(tidied, state.depth, messages),
    }
}

impl BevyCardsPlugin {
    pub fn new(card_width: i32, card_height: i32) -> (plugin: BevyCardsPlugin)
        ensures
            plugin.card_size == (Vec2 { x: card_width, y: card_height }),
    {
        BevyCardsPlugin { card_size: Vec2::new(card_width, card_height) }
    }

    /// Sets the scene up: the default size becomes the plugin's, and the
    /// pointer and the record of where the drag began start from zero. The
    /// entities and the depth counter are left as they are.
    pub fn build(&self, scene: &mut Scene)
        ensures
            final(scene)@ == (SceneState {
                settings: BevyCardsSettings { card_size: self.card_size },
                pointer: Pointer { x: 0, y: 0 },
                drag_origin: DragTargetPrevPosition { x: 0, y: 0, z: 0 },
                ..old(scene)@
            }),
    {
        scene.settings = BevyCardsSettings { card_size: self.card_size };
        scene.pointer = Pointer::default();
        scene.drag_origin = DragTargetPrevPosition::default();
    }
}

impl Scene {
    /// A scene without entities, with a default size of zero.
    pub fn new() -> (scene: Scene)
        ensures
            scene@ == (SceneState {
                settings: BevyCardsSettings { card_size: Vec2 { x: 0, y: 0 } },
                pointer: Pointer { x: 0, y: 0 },
                drag_origin: DragTargetPrevPosition { x: 0, y: 0, z: 0 },
                depth: DepthCounter { value: 0 },
                objects: Seq::empty(),
            }),
            well_formed(scene@.objects),
    {
        Scene {
            settings: BevyCardsSettings { card_size: Vec2 { x: 0, y: 0 } },
            pointer: Pointer::default(),
            drag_origin: DragTargetPrevPosition::default(),
            depth: DepthCounter::default(),
            objects: Vec::new(),
        }
    }

    /// Runs one frame over the scene and returns what it reports. The
    /// entities stay the same and in the same order. A scene in which at
    /// most one object is dragged stays so, and so does a scene that is
    /// well formed.
    pub fn update(&mut self, input: &FrameInput) -> (report: FrameReport)
        ensures
            final(self)@ == after_frame(old(self)@, *input),
            report.pointer == pointer_update(input.cameras, input.windows, input.cursor),
            report.messages@ == frame_messages(old(self)@, *input),
            same_entities(old(self)@.objects, final(self)@.objects),
            at_most_one_dragging(old(self)@.objects) ==> at_most_one_dragging(
                final(self)@.objects,
            ),
            well_formed(old(self)@.objects) ==> well_formed(final(self)@.objects),
    {
        proof {
            lemma_frame_keeps_entities(self@, *input);
            if at_most_one_dragging(self@.objects) {
                lemma_frame_keeps_one_drag(self@, *input);
            }
            if well_formed(self@.objects) {
                lemma_frame_keeps_scene_well_formed(self@, *input);
            }
        }
        let mut messages: Vec<Message> = Vec::new();
        let pointer = update_pointer(
            &mut self.pointer,
            input.cameras,
            input.windows,
            input.cursor,
        );
        hoverable(&self.pointer, &self.settings, &mut self.objects, &mut messages);
        draggable(
            &self.settings,
            &self.pointer,
            input.just_pressed,
            input.just_released,
            &mut self.drag_origin,
            &mut self.objects,
            &mut messages,
        );
        dragging(&self.pointer, &self.drag_origin, &mut self.objects);
        clean_up_previous_slotted_state(&messages, &mut self.objects);
        auto_z(&mut self.depth, &messages, &mut self.objects);
        proof {
            assert(messages@ =~= frame_messages(old(self)@, *input));
        }
        FrameReport { pointer, messages }
    }
}

} // verus!
