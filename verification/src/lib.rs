use vstd::prelude::*;

pub mod text;
pub mod assoc;
pub mod decimal;
pub mod patterns;
pub mod command;
pub mod docs;
pub mod message_link;
pub mod filename;
pub mod listener;
pub mod progresser;
pub mod tasker;
pub mod handlers;

verus! {
} // verus!
