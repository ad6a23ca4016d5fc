//! A grid-based snake simulation driven by discrete ticks, layered over a
//! stacked game-state machine whose states own the entities they spawn.

pub mod arena;
pub mod experience;
pub mod game_loop;
pub mod game_state;
pub mod primitives;
pub mod world;
