//! The state behind the screen: what is listed, what is selected, which
//! messages are loaded, and what a key does. Drawing it is left to the
//! program.

pub mod channels;
pub mod input;
pub mod stateful_list;
