pub mod game;
pub mod geometry;
