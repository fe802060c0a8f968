//! Named to-do lists: ordered tasks with a completion flag, addressed by
//! their position, and a store that keeps the lists under unique names.

pub mod command;
pub mod decimal;
pub mod list;
pub mod store;
