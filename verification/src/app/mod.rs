//! The application: which tab is open, what the keys do before a screen sees
//! them, and what a frame is put together from.

pub mod application;
pub mod cursor;
pub mod keys;
pub mod laws;
pub mod layout;
pub mod pressed;
pub mod rows;
pub mod scope;
pub mod screen;
pub mod shell;

pub use application::App;
