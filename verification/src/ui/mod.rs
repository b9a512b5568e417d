//! What a frame shows, as lines and areas. The application puts them on the
//! terminal.

pub mod details;
pub mod frame;
pub mod laws;
pub mod layout;
pub mod modal;
pub mod paint;
pub mod pane;
pub mod pods;
pub mod render;
pub mod said;
pub mod scrollbar;
pub mod table;
pub mod theme;
pub mod widgets;
