//! Verified core of a desktop colour picker: colours and their hex text,
//! the saved-colour store, the terminal front end's state machine, key
//! bindings, and decoding of a sampled screen pixel.

pub mod color;
pub mod storage;
pub mod tui;
pub mod sampler;
