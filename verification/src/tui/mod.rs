//! The terminal front end's logic: its state machine and its key bindings.

pub mod app;
pub mod input;
