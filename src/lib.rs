//! Actors on a tile grid: the grid and its coordinate transform, collision
//! of axis-aligned boxes with blocked tiles and with each other, shortest
//! routes over the grid, clamped actor speeds, a tick-driven queue of
//! deferred actions, and the customers that walk the shop with them.

pub mod geometry;
pub mod tile_grid;
pub mod route;
pub mod event;
pub mod speed;
pub mod map_object;
pub mod customer;
pub mod player;
pub mod move_fn;
pub mod game_system;
pub mod scene;
