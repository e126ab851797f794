//! A task list: short text tasks that can be added, listed, completed and removed.

pub mod command;
pub mod decimal;
pub mod error;
pub mod laws;
pub mod message;
pub mod render;
pub mod store;
pub mod task;
