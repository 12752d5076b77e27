//! The surface on which the idle animation is composed before any frame has
//! arrived, and how its sweepers are shown.

pub mod canvas;
pub mod params;
pub mod sweeper;
