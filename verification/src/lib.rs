//! The turn-based simulation core of a small dungeon crawler: an entity store,
//! a map with its queries, and the systems that turn intents into outcomes.
//!
//! A game is a [`state::State`]. [`state::State::tick`] advances it by one
//! step for the input of one frame, and says what it needs of its caller: a
//! file to be written or read, or a shortest path for a monster, which the
//! caller answers through [`state::State::path_found`]. Drawing is the
//! caller's too; [`state::State::process_map`] says what to draw.
//!
//! Field of view and random numbers are `rltk`'s. What is taken on trust of
//! them stands in [`fov`] and [`random`].

pub mod components;
pub mod fov;
pub mod gamelog;
pub mod generation;
pub mod gui;
pub mod map;
pub mod player;
pub mod random;
pub mod rect;
pub mod spawner;
pub mod state;
pub mod store;
pub mod systems;
pub mod world;
