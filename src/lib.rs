//! A terminal rendering surface: a character grid mapped onto a real
//! terminal, with a cache of what was last drawn so that only the cells that
//! changed are written again.

pub mod geometry;
pub mod color;
pub mod buffer;
pub mod command;
pub mod screen;
