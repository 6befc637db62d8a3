//! A verified core for a small desktop text editor: a lazily-populated
//! file-tree model, the document (buffer) state, and the message-driven
//! controller that sequences asynchronous filesystem operations.

pub mod controller;
pub mod document;
pub mod errors;
pub mod rows;
pub mod tree;
