//! What the operations of the library are for.
//!
//! Each law speaks of the arguments that an operation was called with and of the
//! result that it returned, `call_ensures(operation, arguments, result)`, and of
//! nothing in between.

pub mod commands;
pub mod drives;
pub mod reading;
pub mod replies;
pub mod streaming;
pub mod tables;
pub mod wav;
