//! Screens reached from Settings.
pub mod developers;
pub mod developers_screen;
