//! A verified Game of Life engine for a growable, edge-clamped grid:
//! the grid model with point queries and mutations, the
//! eight-neighbour count, the generational update, and growth-only
//! resizing, each with a contract that pins its result down.

pub mod game;
pub mod laws;
