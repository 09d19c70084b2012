//! Layering by depth: each drag of an object that opts in ends one layer
//! above every drag that ended before it.
use vstd::prelude::*;
use bevy::ecs::entity::Entity;
use crate::components::{same_entity, Position, SceneObject};
use crate::events::Message;
use crate::search::{first_index, lemma_first_index_found, lemma_first_index_none};
use crate::slots::{clamped, raise};

verus! {

/// How far apart two layers are. It is more than `DRAG_Z_DELTA`, so that an
/// object held above its layer stays below the next one.
pub const DEPTH_INCREMENT: i32 = 2;

/// The depth that was allotted last. It only grows.
#[derive(Clone, Copy, Debug, PartialEq, Eq, Structural)]
pub struct DepthCounter {
    pub value: i32,
}

impl Default for DepthCounter {
    fn default() -> (depth: DepthCounter)
        ensures
            depth == (DepthCounter { value: 0 }),
    {
        DepthCounter { value: 0 }
    }
}

impl DepthCounter {
    /// The counter after one more depth was allotted. At the greatest depth
    /// it stays where it is.
    pub open spec fn next(self) -> DepthCounter {
        DepthCounter { value: clamped(self.value + DEPTH_INCREMENT) }
    }

    /// Allots the next depth and returns it.
    pub fn advance(&mut self) -> (z: i32)
        ensures
            *final(self) == old(self).next(),
            z == final(self).value,
            z >= old(self).value,
            old(self).value < i32::MAX ==> z > old(self).value,
    {
        self.value = raise(self.value, DEPTH_INCREMENT);
        self.value
    }
}

/// The object is the entity `entity`.
pub open spec fn is_entity(entity: Entity) -> spec_fn(SceneObject) -> bool {
    |object: SceneObject| object.entity == entity
}

/// The object that gets a new depth when the drag of `entity` ended: the
/// first object of that identity, if its depth is allotted automatically.
pub open spec fn layered_object(objects: Seq<SceneObject>, entity: Entity) -> Option<int> {
    match first_index(objects, is_entity(entity)) {
        Some(j) => if objects[j].auto_z.is_some() {
            Some(j)
        } else {
            None
        },
        None => None,
    }
}

/// The object resting at depth `z`.
pub open spec fn resting_at(object: SceneObject, z: i32) -> SceneObject {
    SceneObject { position: Position { z, ..object.position }, ..object }
}

/// The scene after the drag of `entity` ended: where its depth is allotted
/// automatically, it rests at the next depth.
pub open spec fn settled(
    objects: Seq<SceneObject>,
    depth: DepthCounter,
    entity: Entity,
) -> Seq<SceneObject> {
    match layered_object(objects, entity) {
        Some(j) => objects.update(j, resting_at(objects[j], depth.next().value)),
        None => objects,
    }
}

/// The counter after the drag of `entity` ended.
pub open spec fn counted(
    objects: Seq<SceneObject>,
    depth: DepthCounter,
    entity: Entity,
) -> DepthCounter {
    if layered_object(objects, entity).is_some() {
        depth.next()
    } else {
        depth
    }
}

/// The scene after every end of a drag among `messages` was followed up, in
/// the order of the messages.
pub open spec fn layered(
    objects: Seq<SceneObject>,
    depth: DepthCounter,
    messages: Seq<Message>,
) -> Seq<SceneObject>
    decreases messages.len(),
{
    if messages.len() == 0 {
        objects
    } else {
        let earlier = layered(objects, depth, messages.drop_last());
        let count = depth_after(objects, depth, messages.drop_last());
        match messages.last() {
            Message::DragEnded(ended) => settled(earlier, count, ended.0),
            _ => earlier,
        }
    }
}

/// The counter after every end of a drag among `messages` was followed up.
pub open spec fn depth_after(
    objects: Seq<SceneObject>,
    depth: DepthCounter,
    messages: Seq<Message>,
) -> DepthCounter
    decreases messages.len(),
{
    if messages.len() == 0 {
        depth
    } else {
        let earlier = layered(objects, depth, messages.drop_last());
        let count = depth_after(objects, depth, messages.drop_last());
        match messages.last() {
            Message::DragEnded(ended) => counted(earlier, count, ended.0),
            _ => count,
        }
    }
}

/// As long as the greatest depth is not reached, the next depth lies
/// strictly above the last one.
pub proof fn lemma_next_depth_is_higher(depth: DepthCounter)
    requires
        depth.value < i32::MAX,
    ensures
        depth.next().value > depth.value,
{
}

/// The counter never falls.
pub proof fn lemma_depth_never_falls(
    objects: Seq<SceneObject>,
    depth: DepthCounter,
    messages: Seq<Message>,
)
    ensures
        depth_after(objects, depth, messages).value >= depth.value,
    decreases messages.len(),
{
    if messages.len() > 0 {
        lemma_depth_never_falls(objects, depth, messages.drop_last());
    }
}

/// Gives the entity whose drag ended its new depth, where its depth is
/// allotted automatically.
pub fn settle(depth: &mut DepthCounter, objects: &mut Vec<SceneObject>, entity: Entity)
    ensures
        final(objects)@ == settled(old(objects)@, *old(depth), entity),
        *final(depth) == counted(old(objects)@, *old(depth), entity),
{
    let n = objects.len();
    let mut j: usize = 0;
    while j < n
        invariant
            j <= n,
            n == objects@.len(),
            objects@ == old(objects)@,
            *depth == *old(depth),
            forall|k: int| 0 <= k < j ==> !is_entity(entity)(#[trigger] objects@[k]),
        decreases n - j,
    {
        let mut object = objects[j];
        if same_entity(object.entity, entity) {
            proof {
                lemma_first_index_found(objects@, is_entity(entity), j as int);
            }
            if object.auto_z.is_some() {
                let z = depth.advance();
                object.position = Position { x: object.position.x, y: object.position.y, z };
                objects.set(j, object);
            }
            return ;
        }
        j += 1;
    }
    proof {
        lemma_first_index_none(objects@, is_entity(entity));
    }
}

/// Follows up every end of a drag among the frame's messages: an object
/// whose depth is allotted automatically comes to rest one layer above the
/// last depth that was allotted.
pub fn auto_z(depth: &mut DepthCounter, messages: &Vec<Message>, objects: &mut Vec<SceneObject>)
    ensures
        final(objects)@ == layered(old(objects)@, *old(depth), messages@),
        *final(depth) == depth_after(old(objects)@, *old(depth), messages@),
{
    let ghost before = objects@;
    let ghost start = *depth;
    let n = messages.len();
    let mut m: usize = 0;
    assert(messages@.take(0) =~= Seq::empty());
    while m < n
        invariant
            m <= n,
            n == messages@.len(),
            objects@ == layered(before, start, messages@.take(m as int)),
            *depth == depth_after(before, start, messages@.take(m as int)),
        decreases n - m,
    {
        proof {
            assert(messages@.take(m + 1).drop_last() =~= messages@.take(m as int));
            assert(messages@.take(m + 1).last() == messages@[m as int]);
        }
        match messages[m] {
            Message::DragEnded(ended) => {
                settle(depth, objects, ended.0);
            },
            _ => {},
        }
        m += 1;
    }
    assert(messages@.take(n as int) =~= messages@);
}

} // verus!
