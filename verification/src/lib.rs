//! Collision detection and resolution for a small 2D arcade world, together
//! with a bounded channel that carries per-system timing samples.
//!
//! World coordinates are whole numbers of the smallest unit the caller cares
//! about (`i32`); quantities derived from them (edges, overshoot) are `i64`,
//! so no computation here can overflow.
//!
//! Component storages are dense: entity `i` owns slot `i` of every storage,
//! and a slot is `None` where the entity lacks the component. A system reads
//! and changes storages only; what it wants of the world beyond them (an
//! effect to show, an entity to remove) it returns as a list of commands.
//!
//! The timing channel changes through `&mut` only: whoever pushes or pops has
//! it to itself for the length of the call.

pub mod components;
pub mod decimal;
pub mod systems;
