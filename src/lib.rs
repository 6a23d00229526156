//! A single-user task list: tasks with opaque unique identifiers, kept in
//! insertion order, with add / remove / complete / list operations.

pub mod task;
pub mod store;
pub mod shell;
