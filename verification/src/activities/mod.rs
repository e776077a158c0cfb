//! The product's screens, laid out as the firmware's own activities are.
pub mod settings;
pub mod util;
