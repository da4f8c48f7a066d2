pub mod tasks;
pub mod session;
pub mod dispatch;
pub mod transfer;
pub mod reporter;
pub mod aborters;
