pub mod belief;
pub mod data;
pub mod model;
