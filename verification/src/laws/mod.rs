//! What holds of the library as a whole: what its results say about what they were
//! made from, and how its operations relate to each other.

pub mod chat;
pub mod chrome;
pub mod engine;
pub mod events;
pub mod palette;
pub mod pickers;
pub mod protocol;
pub mod providers;
pub mod questions;
pub mod results;
pub mod settings;
