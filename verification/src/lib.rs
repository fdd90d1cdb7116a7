pub mod game;
pub mod simulation;
