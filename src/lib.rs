//! The turn-based simulation core of an ASCII roguelike: dungeon generation,
//! the obstacle/actor index, field of view with memory, the energy scheduler,
//! combat resolution and monster AI, all over plain grids.

pub mod grid;
pub mod random;
pub mod map;
pub mod map_state;
pub mod visibility;
pub mod turn_system;
pub mod combat;
pub mod monster;
pub mod player;
pub mod input;
pub mod records;
