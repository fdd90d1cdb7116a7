pub mod analysis;
pub mod branching;
pub mod model;
pub mod paired;
pub mod runner;
pub mod tournament;
pub mod trace;
pub mod tuner;
pub mod rollout;
pub mod grid;
pub mod checkpoint;
pub mod laws;
