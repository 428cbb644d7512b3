//! The per-tick systems: the collision detector, its two resolvers, and the
//! timing channel.

pub mod collision;
pub mod time_metrics;
