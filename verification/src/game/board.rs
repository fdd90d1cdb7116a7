pub mod data;
pub mod model;
