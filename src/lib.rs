//! A selector panel: a closed set of choices, a state that records every
//! message it processes, and a pure description of what the panel shows.

pub mod choice;
pub mod message;
pub mod panel;
pub mod text;
