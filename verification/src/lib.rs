//! Interaction core of a two-dimensional drag-and-drop card table.
//!
//! A scene is a list of objects on an integer grid. Once per frame the host
//! reports where the pointer is and whether its button went down or up, and
//! the systems of [`behaviour`] move the scene one step on: they classify
//! hovering, start, hold and end the single drag, place a released object into
//! a slot, evict it from the slot it came from, and layer it by depth. What
//! happened is appended, in order, to a queue of [`events::Message`]s.
//!
//! Every length is a whole number of grid units. The half of a size is kept
//! exactly, as [`geometry::HalfSize`], and every geometric test compares
//! doubled coordinates.
pub mod geometry;
pub mod search;
pub mod components;
pub mod events;
pub mod settings;
pub mod behaviour;
pub mod slots;
pub mod depth;
pub mod plugin;
pub mod invariants;
pub mod prelude;
