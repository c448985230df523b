//! An in-memory store of task records, with the four operations a small
//! task service needs: list, create, update and delete.
//!
//! `todo` holds the record, `store` the list and its operations, `model`
//! the mathematics in which their contracts are written, and `laws` what
//! follows from those contracts for every store.

pub mod laws;
pub mod model;
pub mod store;
pub mod todo;

pub use crate::store::{
    create_todo, delete_todo, get_todos, index, rocket, update_todo, TodoList,
};
pub use crate::todo::Todo;
