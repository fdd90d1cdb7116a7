pub mod data;
pub mod lut;
pub mod model;
