//! Terminal manipulation primitives: escape-sequence decoding of keyboard
//! input, cursor and screen commands, and read scheduling, behind a thin
//! platform abstraction.

pub mod events;
pub mod key;
pub mod parse;
pub mod style;
pub mod terminal;
