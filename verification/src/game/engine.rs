pub mod action;
pub mod auction;
pub mod card;
pub mod event;
pub mod improvement;
pub mod landing;
pub mod liquidation;
pub mod mortgage;
pub mod movement;
pub mod payment;
pub mod trade;
pub mod turn;
pub mod laws;
