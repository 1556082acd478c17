//! A 2D world grid with an interactive building-placement core.
//!
//! The crate models a discretized terrain ([`world_grid::WorldGrid`]),
//! the set of obstacles overlapping an active placement preview
//! ([`overlap::OverlapSet`]), and the placement session itself
//! ([`building::BuildingControlState`]): previewing a footprint under the
//! cursor, validating it against overlaps and UI focus, and committing it
//! to the grid.

pub mod building;
pub mod overlap;
pub mod states;
pub mod world_grid;
