//! Leaf views that draw content.
pub mod text;
pub mod slider;
pub mod list;
pub mod section;
pub mod modal;
pub mod icon_toggle;
pub mod toggle;
pub mod stepper;
