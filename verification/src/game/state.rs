pub mod model;
pub mod validity;
