//! The systems that move the scene on by one frame, in the order in which a
//! frame runs them.
use vstd::prelude::*;
use crate::components::{Dragging, Hovering, Position, SceneObject};
use crate::events::{DragStartedMessage, HoverEndedMessage, HoverStartedMessage, Message};
use crate::geometry::{contains_strictly, strictly_inside, HalfSize, Vec2};
use crate::invariants::{at_most_one_dragging, lemma_buttons_keep_one_drag};
use crate::search::{
    first_index, lemma_first_index_found, lemma_first_index_none, lemma_first_index_sound,
};
use crate::settings::BevyCardsSettings;
use crate::slots::{
    clamped, evict, raise, reconciled, release_messages, release_object, released, DRAG_Z_DELTA,
};

verus! {

/// Where the pointer is, in grid units. It keeps its last value while the
/// host cannot tell.
#[derive(Clone, Copy, Debug, PartialEq, Eq, Structural)]
pub struct Pointer {
    pub x: i32,
    pub y: i32,
}

impl Default for Pointer {
    fn default() -> (pointer: Pointer)
        ensures
            pointer == (Pointer { x: 0, y: 0 }),
    {
        Pointer { x: 0, y: 0 }
    }
}

/// Where the dragged object was when its drag began. It means something only
/// while an object is being dragged.
#[derive(Clone, Copy, Debug, PartialEq, Eq, Structural)]
pub struct DragTargetPrevPosition {
    pub x: i32,
    pub y: i32,
    pub z: i32,
}

impl Default for DragTargetPrevPosition {
    fn default() -> (origin: DragTargetPrevPosition)
        ensures
            origin == (DragTargetPrevPosition { x: 0, y: 0, z: 0 }),
    {
        DragTargetPrevPosition { x: 0, y: 0, z: 0 }
    }
}

/// What a frame's reading of the pointer came to.
#[derive(Clone, Copy, Debug, PartialEq, Eq, Structural)]
pub enum PointerUpdate {
    /// The pointer took the cursor's position.
    Moved,
    /// There was no camera, or more than one; the pointer kept its value.
    NoSingleCamera,
    /// There was no window, or more than one; the pointer kept its value.
    NoSingleWindow,
    /// The cursor was outside the viewport; the pointer kept its value.
    CursorOutside,
}

/// What `update_pointer` reports for a reading: the camera is looked at
/// first, then the window, then the cursor.
pub open spec fn pointer_update(cameras: usize, windows: usize, cursor: Option<Vec2>) -> PointerUpdate {
    if cameras != 1 {
        PointerUpdate::NoSingleCamera
    } else if windows != 1 {
        PointerUpdate::NoSingleWindow
    } else if cursor.is_none() {
        PointerUpdate::CursorOutside
    } else {
        PointerUpdate::Moved
    }
}

/// Takes over the cursor's position in the scene, where the host could
/// determine it. `cameras` and `windows` are the numbers of cameras and of
/// primary windows that the host found, `cursor` is the cursor projected into
/// the scene, or `None` while it is outside the viewport. Unless there is
/// exactly one camera, exactly one window and a cursor, the pointer keeps the
/// value it had.
pub fn update_pointer(
    pointer: &mut Pointer,
    cameras: usize,
    windows: usize,
    cursor: Option<Vec2>,
) -> (outcome: PointerUpdate)
    ensures
        outcome == pointer_update(cameras, windows, cursor),
        outcome == PointerUpdate::Moved ==> *final(pointer) == (Pointer {
            x: cursor.unwrap().x,
            y: cursor.unwrap().y,
        }),
        outcome != PointerUpdate::Moved ==> *final(pointer) == *old(pointer),
{
    if cameras != 1 {
        return PointerUpdate::NoSingleCamera;
    }
    if windows != 1 {
        return PointerUpdate::NoSingleWindow;
    }
    match cursor {
        Some(pos) => {
            pointer.x = pos.x;
            pointer.y = pos.y;
            PointerUpdate::Moved
        },
        None => PointerUpdate::CursorOutside,
    }
}

/// The half size that an object is measured with: that of its own size, or
/// of the default size where it has none.
pub open spec fn half_size_of(object: SceneObject, settings: BevyCardsSettings) -> HalfSize {
    match object.card_size {
        Some(size) => HalfSize { twice: size.0 },
        None => HalfSize { twice: settings.card_size },
    }
}

/// The pointer is strictly inside the object's bounds.
pub open spec fn pointer_over(
    object: SceneObject,
    pointer: Pointer,
    settings: BevyCardsSettings,
) -> bool {
    strictly_inside(
        object.position.x as int,
        object.position.y as int,
        half_size_of(object, settings),
        pointer.x as int,
        pointer.y as int,
    )
}

/// The object is classified anew: it is a card and is not being dragged.
pub open spec fn hover_tested(object: SceneObject) -> bool {
    object.card.is_some() && object.dragging.is_none()
}

/// The pointer has just come inside the object.
pub open spec fn hover_starts(
    object: SceneObject,
    pointer: Pointer,
    settings: BevyCardsSettings,
) -> bool {
    hover_tested(object) && object.hovering.is_none() && pointer_over(object, pointer, settings)
}

/// The pointer has just left the object.
pub open spec fn hover_ends(
    object: SceneObject,
    pointer: Pointer,
    settings: BevyCardsSettings,
) -> bool {
    hover_tested(object) && object.hovering.is_some() && !pointer_over(object, pointer, settings)
}

/// The object after it was classified.
pub open spec fn after_hover(
    object: SceneObject,
    pointer: Pointer,
    settings: BevyCardsSettings,
) -> SceneObject {
    if hover_starts(object, pointer, settings) {
        SceneObject { hovering: Some(Hovering), ..object }
    } else if hover_ends(object, pointer, settings) {
        SceneObject { hovering: None, ..object }
    } else {
        object
    }
}

/// The scene after every object was classified.
pub open spec fn hovered(
    objects: Seq<SceneObject>,
    pointer: Pointer,
    settings: BevyCardsSettings,
) -> Seq<SceneObject> {
    Seq::new(objects.len(), |i: int| after_hover(objects[i], pointer, settings))
}

/// The messages of one classification: for each object, in the scene's
/// order, one message where its state changed and none where it did not.
pub open spec fn hover_messages(
    objects: Seq<SceneObject>,
    pointer: Pointer,
    settings: BevyCardsSettings,
) -> Seq<Message>
    decreases objects.len(),
{
    if objects.len() == 0 {
        Seq::empty()
    } else {
        let earlier = hover_messages(objects.drop_last(), pointer, settings);
        let object = objects.last();
        if hover_starts(object, pointer, settings) {
            earlier.push(Message::HoverStarted(HoverStartedMessage(object.entity)))
        } else if hover_ends(object, pointer, settings) {
            earlier.push(Message::HoverEnded(HoverEndedMessage(object.entity)))
        } else {
            earlier
        }
    }
}

/// Computes the half size that an object is measured with.
pub fn measured_half_size(object: &SceneObject, settings: &BevyCardsSettings) -> (half: HalfSize)
    ensures
        half == half_size_of(*object, *settings),
{
    match object.card_size {
        Some(size) => size.half_size(),
        None => settings.half_size(),
    }
}

/// Tests whether the pointer is strictly inside an object's bounds.
pub fn is_pointer_over(
    object: &SceneObject,
    pointer: &Pointer,
    settings: &BevyCardsSettings,
) -> (over: bool)
    ensures
        over == pointer_over(*object, *pointer, *settings),
{
    contains_strictly(
        Vec2 { x: object.position.x, y: object.position.y },
        measured_half_size(object, settings),
        Vec2 { x: pointer.x, y: pointer.y },
    )
}

/// Classifies every card that is not being dragged as hovering or not.
/// Where that changes an object's state, the marker is attached or removed
/// and one message is appended; where it does not, nothing happens.
pub fn hoverable(
    pointer: &Pointer,
    settings: &BevyCardsSettings,
    objects: &mut Vec<SceneObject>,
    messages: &mut Vec<Message>,
)
    ensures
        final(objects)@ == hovered(old(objects)@, *pointer, *settings),
        final(messages)@ == old(messages)@ + hover_messages(old(objects)@, *pointer, *settings),
{
    let ghost before = objects@;
    let ghost sent = messages@;
    let n = objects.len();
    let mut i: usize = 0;
    assert(before.take(0) =~= Seq::empty());
    while i < n
        invariant
            i <= n,
            n == before.len(),
            objects@.len() == n,
            forall|j: int| 0 <= j < i ==> objects@[j] == after_hover(before[j], *pointer, *settings),
            forall|j: int| i <= j < n ==> objects@[j] == before[j],
            messages@ == sent + hover_messages(before.take(i as int), *pointer, *settings),
        decreases n - i,
    {
        let object = objects[i];
        proof {
            assert(before.take(i + 1).drop_last() =~= before.take(i as int));
            assert(before.take(i + 1).last() == before[i as int]);
        }
        if object.card.is_some() && object.dragging.is_none() {
            let over = is_pointer_over(&object, pointer, settings);
            if object.hovering.is_none() && over {
                let mut marked = object;
                marked.hovering = Some(Hovering);
                objects.set(i, marked);
                messages.push(Message::HoverStarted(HoverStartedMessage(object.entity)));
            } else if object.hovering.is_some() && !over {
                let mut cleared = object;
                cleared.hovering = None;
                objects.set(i, cleared);
                messages.push(Message::HoverEnded(HoverEndedMessage(object.entity)));
            }
        }
        proof {
            let earlier = hover_messages(before.take(i as int), *pointer, *settings);
            assert(messages@ == sent + hover_messages(before.take(i + 1), *pointer, *settings)) by {
                assert((sent + earlier).push(Message::HoverStarted(HoverStartedMessage(object.entity)))
                    =~= sent + earlier.push(Message::HoverStarted(HoverStartedMessage(object.entity))));
                assert((sent + earlier).push(Message::HoverEnded(HoverEndedMessage(object.entity)))
                    =~= sent + earlier.push(Message::HoverEnded(HoverEndedMessage(object.entity))));
            }
        }
        i += 1;
    }
    assert(before.take(n as int) =~= before);
    assert(objects@ =~= hovered(before, *pointer, *settings));
}

/// Some object is being dragged.
pub open spec fn any_dragging(objects: Seq<SceneObject>) -> bool {
    exists|i: int| 0 <= i < objects.len() && (#[trigger] objects[i]).dragging.is_some()
}

/// A press can pick the object up: it is a card, hovered, draggable, and not
/// being dragged.
pub open spec fn can_start_drag(object: SceneObject) -> bool {
    &&& object.card.is_some()
    &&& object.hovering.is_some()
    &&& object.draggable.is_some()
    &&& object.dragging.is_none()
}

/// `can_start_drag` as a predicate.
pub open spec fn startable() -> spec_fn(SceneObject) -> bool {
    |object: SceneObject| can_start_drag(object)
}

/// The object that a press picks up: none unless the button went down while
/// nothing was being dragged, and then the first in the scene's order that
/// can be picked up.
pub open spec fn drag_start(objects: Seq<SceneObject>, just_pressed: bool) -> Option<int> {
    if just_pressed && !any_dragging(objects) {
        first_index(objects, startable())
    } else {
        None
    }
}

/// The object with its drag begun.
pub open spec fn picked_up(object: SceneObject) -> SceneObject {
    SceneObject { dragging: Some(Dragging), ..object }
}

/// The record of where a drag began, for an object at `position`.
pub open spec fn origin_at(position: Position) -> DragTargetPrevPosition {
    DragTargetPrevPosition { x: position.x, y: position.y, z: position.z }
}

/// The scene after the drags of the first `k` objects ended, one after the
/// other in the scene's order, each as `released` says. Objects that are not
/// being dragged are passed over.
pub open spec fn released_through(
    objects: Seq<SceneObject>,
    k: int,
    origin: DragTargetPrevPosition,
    settings: BevyCardsSettings,
) -> Seq<SceneObject>
    decreases k,
{
    if k <= 0 {
        objects
    } else {
        let earlier = released_through(objects, k - 1, origin, settings);
        if earlier[k - 1].dragging.is_some() {
            released(earlier, k - 1, origin, settings)
        } else {
            earlier
        }
    }
}

/// The messages of the ends of the drags of the first `k` objects, in the
/// scene's order.
pub open spec fn release_log(
    objects: Seq<SceneObject>,
    k: int,
    origin: DragTargetPrevPosition,
    pointer: Pointer,
    settings: BevyCardsSettings,
) -> Seq<Message>
    decreases k,
{
    if k <= 0 {
        Seq::empty()
    } else {
        let earlier = released_through(objects, k - 1, origin, settings);
        let log = release_log(objects, k - 1, origin, pointer, settings);
        if earlier[k - 1].dragging.is_some() {
            log + release_messages(earlier, k - 1, pointer, settings)
        } else {
            log
        }
    }
}

/// The scene after the button's edges of one frame were handled. A press
/// takes effect only while nothing is being dragged, and a release ends the
/// drags that were under way when the frame began: an object picked up in a
/// frame is not released in that frame.
pub open spec fn after_buttons(
    objects: Seq<SceneObject>,
    origin: DragTargetPrevPosition,
    settings: BevyCardsSettings,
    just_pressed: bool,
    just_released: bool,
) -> Seq<SceneObject> {
    match drag_start(objects, just_pressed) {
        Some(i) => objects.update(i, picked_up(objects[i])),
        None => if just_released {
            released_through(objects, objects.len() as int, origin, settings)
        } else {
            objects
        },
    }
}

/// The record of where the drag began, after the button's edges of one frame
/// were handled: taken anew where a drag starts, and kept otherwise.
pub open spec fn origin_after_buttons(
    objects: Seq<SceneObject>,
    origin: DragTargetPrevPosition,
    just_pressed: bool,
) -> DragTargetPrevPosition {
    match drag_start(objects, just_pressed) {
        Some(i) => origin_at(objects[i].position),
        None => origin,
    }
}

/// The messages of the button's edges of one frame.
pub open spec fn button_messages(
    objects: Seq<SceneObject>,
    origin: DragTargetPrevPosition,
    pointer: Pointer,
    settings: BevyCardsSettings,
    just_pressed: bool,
    just_released: bool,
) -> Seq<Message> {
    match drag_start(objects, just_pressed) {
        Some(i) => seq![
            Message::DragStarted(
                DragStartedMessage(objects[i].entity, Vec2 { x: pointer.x, y: pointer.y }),
            ),
        ],
        None => if just_released {
            release_log(objects, objects.len() as int, origin, pointer, settings)
        } else {
            Seq::empty()
        },
    }
}

/// The object that a press picks up can be picked up, and no object before
/// it in the scene's order can. A press picks nothing up while an object is
/// being dragged.
pub proof fn lemma_picked_up_is_first(objects: Seq<SceneObject>, just_pressed: bool)
    ensures
        match drag_start(objects, just_pressed) {
            Some(i) => {
                &&& just_pressed
                &&& !any_dragging(objects)
                &&& 0 <= i < objects.len()
                &&& can_start_drag(objects[i])
                &&& forall|k: int| 0 <= k < i ==> !can_start_drag(#[trigger] objects[k])
            },
            None => just_pressed && !any_dragging(objects) ==> forall|k: int|
                0 <= k < objects.len() ==> !can_start_drag(#[trigger] objects[k]),
        },
{
    lemma_first_index_sound(objects, startable());
    assert forall|k: int| 0 <= k < objects.len() && !startable()(objects[k]) implies !can_start_drag(
        #[trigger] objects[k],
    ) by {}
}

/// Where nothing is being dragged, a release changes nothing and reports
/// nothing.
pub proof fn lemma_nothing_held_nothing_released(
    objects: Seq<SceneObject>,
    k: int,
    origin: DragTargetPrevPosition,
    pointer: Pointer,
    settings: BevyCardsSettings,
)
    requires
        !any_dragging(objects),
        k <= objects.len(),
    ensures
        released_through(objects, k, origin, settings) == objects,
        release_log(objects, k, origin, pointer, settings) == Seq::<Message>::empty(),
    decreases k,
{
    if k > 0 {
        lemma_nothing_held_nothing_released(objects, k - 1, origin, pointer, settings);
        assert(objects[k - 1].dragging.is_none());
    }
}

/// Tests whether some object is being dragged.
pub fn is_any_dragging(objects: &Vec<SceneObject>) -> (any: bool)
    ensures
        any == any_dragging(objects@),
{
    let n = objects.len();
    let mut i: usize = 0;
    while i < n
        invariant
            i <= n,
            n == objects@.len(),
            forall|j: int| 0 <= j < i ==> (#[trigger] objects@[j]).dragging.is_none(),
        decreases n - i,
    {
        if objects[i].dragging.is_some() {
            return true;
        }
        i += 1;
    }
    false
}

/// Finds the first object that a press can pick up.
pub fn find_drag_candidate(objects: &Vec<SceneObject>) -> (found: Option<usize>)
    ensures
        match found {
            Some(i) => i < objects@.len() && first_index(objects@, startable()) == Some(i as int),
            None => first_index(objects@, startable()).is_none(),
        },
{
    let n = objects.len();
    let mut i: usize = 0;
    while i < n
        invariant
            i <= n,
            n == objects@.len(),
            forall|j: int| 0 <= j < i ==> !startable()(#[trigger] objects@[j]),
        decreases n - i,
    {
        let object = objects[i];
        if object.card.is_some() && object.hovering.is_some() && object.draggable.is_some()
            && object.dragging.is_none() {
            proof {
                lemma_first_index_found(objects@, startable(), i as int);
            }
            return Some(i);
        }
        i += 1;
    }
    proof {
        lemma_first_index_none(objects@, startable());
    }
    None
}

/// Handles the button's edges of one frame. When the button went down and
/// nothing is being dragged, the first object that can be picked up gets the
/// marker, its position is remembered in `previous_pos`, and the start of
/// the drag is reported. When the button went up, every drag that was under
/// way ends: the marker goes, a slottable object is placed or fails to be,
/// and the end of the drag is reported last.
pub fn draggable(
    settings: &BevyCardsSettings,
    pointer: &Pointer,
    just_pressed: bool,
    just_released: bool,
    previous_pos: &mut DragTargetPrevPosition,
    objects: &mut Vec<SceneObject>,
    messages: &mut Vec<Message>,
)
    ensures
        final(objects)@ == after_buttons(
            old(objects)@,
            *old(previous_pos),
            *settings,
            just_pressed,
            just_released,
        ),
        *final(previous_pos) == origin_after_buttons(
            old(objects)@,
            *old(previous_pos),
            just_pressed,
        ),
        final(messages)@ == old(messages)@ + button_messages(
            old(objects)@,
            *old(previous_pos),
            *pointer,
            *settings,
            just_pressed,
            just_released,
        ),
        at_most_one_dragging(old(objects)@) ==> at_most_one_dragging(final(objects)@),
{
    let ghost before = objects@;
    proof {
        if at_most_one_dragging(before) {
            lemma_buttons_keep_one_drag(before, *previous_pos, *settings, just_pressed, just_released);
        }
    }
    let ghost sent = messages@;
    let ghost origin = *previous_pos;
    let held = is_any_dragging(objects);
    if !held {
        proof {
            lemma_nothing_held_nothing_released(
                before,
                before.len() as int,
                origin,
                *pointer,
                *settings,
            );
            assert(sent + Seq::<Message>::empty() =~= sent);
        }
        if just_pressed {
            if let Some(i) = find_drag_candidate(objects) {
                let object = objects[i];
                let mut lifted = object;
                lifted.dragging = Some(Dragging);
                objects.set(i, lifted);
                previous_pos.x = object.position.x;
                previous_pos.y = object.position.y;
                previous_pos.z = object.position.z;
                messages.push(
                    Message::DragStarted(
                        DragStartedMessage(object.entity, Vec2 { x: pointer.x, y: pointer.y }),
                    ),
                );
                proof {
                    assert(messages@ =~= sent + seq![
                        Message::DragStarted(
                            DragStartedMessage(object.entity, Vec2 { x: pointer.x, y: pointer.y }),
                        ),
                    ]);
                }
            }
        }
    } else if just_released {
        let n = objects.len();
        let mut k: usize = 0;
        proof {
            assert(sent + Seq::<Message>::empty() =~= sent);
        }
        while k < n
            invariant
                k <= n,
                n == before.len(),
                objects@.len() == n,
                objects@ == released_through(before, k as int, origin, *settings),
                messages@ == sent + release_log(before, k as int, origin, *pointer, *settings),
                *previous_pos == origin,
            decreases n - k,
        {
            let ghost log = release_log(before, k as int, origin, *pointer, *settings);
            let ghost now = objects@;
            if objects[k].dragging.is_some() {
                release_object(objects, k, previous_pos, pointer, settings, messages);
                proof {
                    assert((sent + log) + release_messages(now, k as int, *pointer, *settings)
                        =~= sent + (log + release_messages(now, k as int, *pointer, *settings)));
                }
            }
            k += 1;
        }
    } else {
        proof {
            assert(sent + Seq::<Message>::empty() =~= sent);
        }
    }
}

/// The object as a frame holds it: an object that is being dragged is
/// centred on the pointer, and, where its depth is allotted automatically,
/// drawn just above the depth at which its drag began. Its depth at rest is
/// not changed by this.
pub open spec fn held_at(
    object: SceneObject,
    pointer: Pointer,
    origin: DragTargetPrevPosition,
) -> SceneObject {
    if object.dragging.is_some() {
        SceneObject {
            position: Position {
                x: pointer.x,
                y: pointer.y,
                z: if object.auto_z.is_some() {
                    clamped(origin.z + DRAG_Z_DELTA)
                } else {
                    object.position.z
                },
            },
            ..object
        }
    } else {
        object
    }
}

/// The scene with every dragged object held at the pointer.
pub open spec fn held(
    objects: Seq<SceneObject>,
    pointer: Pointer,
    origin: DragTargetPrevPosition,
) -> Seq<SceneObject> {
    Seq::new(objects.len(), |i: int| held_at(objects[i], pointer, origin))
}

/// Moves every object that is being dragged to the pointer.
pub fn dragging(
    pointer: &Pointer,
    origin: &DragTargetPrevPosition,
    objects: &mut Vec<SceneObject>,
)
    ensures
        final(objects)@ == held(old(objects)@, *pointer, *origin),
{
    let ghost before = objects@;
    let n = objects.len();
    let mut i: usize = 0;
    while i < n
        invariant
            i <= n,
            n == before.len(),
            objects@.len() == n,
            forall|j: int| 0 <= j < i ==> objects@[j] == held_at(before[j], *pointer, *origin),
            forall|j: int| i <= j < n ==> objects@[j] == before[j],
        decreases n - i,
    {
        let mut object = objects[i];
        if object.dragging.is_some() {
            let z = if object.auto_z.is_some() {
                raise(origin.z, DRAG_Z_DELTA)
            } else {
                object.position.z
            };
            object.position = Position { x: pointer.x, y: pointer.y, z };
            objects.set(i, object);
        }
        i += 1;
    }
    assert(objects@ =~= held(before, *pointer, *origin));
}

/// Follows up every placement among the frame's messages: an object that
/// was placed into a slot is taken out of the slot it sat in before, so that
/// it is never recorded in two slots once this has run.
pub fn clean_up_previous_slotted_state(messages: &Vec<Message>, objects: &mut Vec<SceneObject>)
    ensures
        final(objects)@ == reconciled(old(objects)@, messages@),
{
    let ghost before = objects@;
    let n = messages.len();
    let mut m: usize = 0;
    assert(messages@.take(0) =~= Seq::empty());
    while m < n
        invariant
            m <= n,
            n == messages@.len(),
            objects@ == reconciled(before, messages@.take(m as int)),
        decreases n - m,
    {
        proof {
            assert(messages@.take(m + 1).drop_last() =~= messages@.take(m as int));
            assert(messages@.take(m + 1).last() == messages@[m as int]);
        }
        match messages[m] {
            Message::SlottedInto(placed) => {
                evict(objects, placed.card, placed.slot);
            },
            _ => {},
        }
        m += 1;
    }
    assert(messages@.take(n as int) =~= messages@);
}

} // verus!
