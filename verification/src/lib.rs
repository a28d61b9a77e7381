pub mod game;
pub mod grid;
pub mod random;
pub mod snake;
