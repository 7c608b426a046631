//! Simulation core of a grid-based, turn-structured dungeon crawler.
//!
//! A level is generated by placing rooms at random and joining each to the
//! one before it ([`dungeon`]); it is populated with the player and monsters
//! ([`spawn`]); then the game proceeds in turns ([`session`]): the player
//! moves or attacks ([`turn`]), and the monsters that are in sight walk up to
//! the player and attack ([`ai`]). Entities and combat are in [`entity`] and
//! [`registry`], the terrain in [`grid`], and what to paint in [`render`].
//!
//! Window, keyboard and the field-of-view computation are not part of the
//! core: it takes input events ([`turn::Key`]) and a visibility map
//! ([`fov::FovMap`]) and hands out what to draw and what happened
//! ([`registry::Event`]).

pub mod ai;
pub mod colors;
pub mod dungeon;
pub mod entity;
pub mod fov;
pub mod grid;
pub mod random;
pub mod rect;
pub mod registry;
pub mod render;
pub mod session;
pub mod spawn;
pub mod turn;
