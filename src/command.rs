//! The commands that the dispatcher runs on a document.
pub mod history;
pub mod movement;
pub mod select;
pub mod transform;
