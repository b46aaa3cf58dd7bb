//! A first-person grid-world renderer: ray casting against a square map of
//! typed cells, with the movement and collision rules it depends on.
//!
//! Every scalar is a fixed-point number (see [`fixed`]), so every result is
//! a function of its inputs alone and is stated exactly. Time is counted
//! in nanoseconds, colours are packed RGBA words.
//!
//! A frame runs through the modules in this order: [`engine`] takes in the
//! input and paces the loop, [`game`] moves and turns the [`player`] inside
//! the [`world`], [`raycast`] finds the wall behind every column, and
//! [`render`] draws the main view and, with [`minimap`], [`line`] and
//! [`circle`], the minimap, both on a [`canvas`] and from a [`texture`] set.
//! Opening a window, reading keys, the clock and image files, and showing
//! the finished pictures are left to the caller.

pub mod canvas;
pub mod circle;
pub mod engine;
pub mod fixed;
pub mod game;
pub mod line;
pub mod minimap;
pub mod player;
pub mod raycast;
pub mod render;
pub mod texture;
pub mod util;
pub mod world;
