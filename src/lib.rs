//! Links the top-level entries of a source directory into a destination
//! directory with symbolic links, resolving collisions by a policy.
//!
//! The library decides; the program around it touches the filesystem. Every
//! filesystem operation is an `Action` that the caller performs and answers
//! with an `Event`, and `model` states what a run of that exchange does to a
//! destination entry.
pub mod config;
pub mod model;
pub mod sync;
pub mod text;
pub mod utils;

pub use config::App;
pub use sync::ConflictResolver;
