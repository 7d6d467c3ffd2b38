//! The terminal UI: a grid of nine images per page, its keys and mouse, and
//! what it shows.

pub mod app;
pub mod focus;
pub mod layout;
pub mod results;
pub mod ui;
