//! A small entity-component-system world on a toroidal grid: entities carry
//! optional position, velocity, lifetime and sprite components, a movement
//! pass shifts every moving entity with wrap-around, and a lifetime pass
//! counts entities down and destroys those whose counter has run out.

mod components;
mod game;
mod systems;
mod world;

pub use components::{Lifetime, Position, Sprite, Velocity, GRID_SIZE, INITIAL_TAIL, TILE_SIZE};
pub use game::{draw_list, initial_world, screen_position};
pub use systems::{
    aged_view, dies, lemma_destroyed_after_countdown, moved_view, run_lifetimes, run_movement,
    tick, wrap_axis, wrap_position, wrapped, wrapped_position, LifetimeSystem, MovementSystem,
};
pub use world::{GameWorld, WorldView, MAX_LIVE};
