//! The glance: a creature's mood and a handful of one-line observations,
//! laid out side by side for a terminal.

pub mod text;
pub mod theme;
pub mod config;
pub mod state;
pub mod clock;
pub mod pose;
pub mod sprite;
pub mod voice;
pub mod render;
pub mod observers;
