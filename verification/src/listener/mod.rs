pub mod events;
pub mod handler;
