//! Helpers shared by the library.
pub mod time;
