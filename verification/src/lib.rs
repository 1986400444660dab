//! Conway's Game of Life on a bounded grid with hard edges.
//!
//! [`world`] holds the engine and [`rules`] the mathematics it answers to;
//! [`patterns`] proves what the rule does to a block and to a blinker, and
//! [`render`] says what a world looks like as text. Around the engine,
//! [`prompt`] collects the size of a world, [`control`] turns key presses
//! into the pace and the restarts of a session, and [`screen`] lays out the
//! panels and composes the status line. [`random`] is the one door to
//! chance.

pub mod control;
pub mod patterns;
pub mod prompt;
pub mod random;
pub mod render;
pub mod rules;
pub mod screen;
pub mod vector;
pub mod world;
