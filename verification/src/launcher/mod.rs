//! The application launcher: discovery of desktop applications, fuzzy
//! search, and the overlay's key handling.

pub mod apps;
pub mod draw;
pub mod search;
pub mod ui;
