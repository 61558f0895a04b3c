//! The core of a turn-based grid game: a terrain of walkable and wall
//! cells, a store of the entities placed on it, the rules by which players'
//! move orders are checked and carried out, and a read-only view through
//! which controllers look at the board and find routes.

pub mod ai;
pub mod entity;
pub mod game_state;
pub mod game_view;
pub mod player;
pub mod terrain;
