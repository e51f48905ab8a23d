//! Matching rules for chat events and argument extraction from command text.

pub mod text;
pub mod pattern;
pub mod event;
pub mod value;
pub mod tuple_matcher;
pub mod command_matcher;
pub mod laws;
