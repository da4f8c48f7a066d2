pub mod progress;
pub mod progresser;
