//! A to-do list kept in memory: entries are appended with fresh identifiers,
//! marked done or undone, and deleted, and the list is read back in the order
//! in which its entries were added.
//!
//! Every operation is stated over a mathematical model of the list, a
//! sequence of [`todo::TodoView`] values, and proved against it.

pub mod input;
pub mod laws;
pub mod model;
pub mod store;
pub mod todo;
