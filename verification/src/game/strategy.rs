pub mod any;
pub mod belief;
pub mod cautious;
pub mod configurable;
pub mod data;
pub mod greedy;
pub mod model;
pub mod observation;
pub mod rollout;
pub mod rollout_player;
pub mod trading;
