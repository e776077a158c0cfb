//! Panels that sit over whatever screen is open.
pub mod frontlight_panel;
