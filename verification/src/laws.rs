//! What holds of all requests, whatever they are about and in whatever order
//! they are made.

pub mod actions;
pub mod custody;
pub mod dealings;
pub mod effects;
pub mod grants;
pub mod histories;
pub mod lifetimes;
pub mod locality;
pub mod registry;
pub mod requests;
pub mod running;
pub mod views;
