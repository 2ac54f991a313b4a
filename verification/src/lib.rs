//! The rules engine of an alternate-history grand strategy game: countries,
//! wars, diplomacy and the calendar, with the tool handlers through which a
//! simulation engine acts on the world.

pub mod text;
pub mod search;
pub mod advisor;
pub mod context;
pub mod directive;
pub mod game;
pub mod llm;
pub mod tools;
