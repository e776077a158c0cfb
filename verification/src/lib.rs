//! A declarative UI framework for e-ink firmware screens, and the screens
//! built on it.
//!
//! Screens are described as a tree of views. The framework measures the tree,
//! collects the regions each control declares, resolves a frame of input
//! against them, and produces the drawing the host paints.
use vstd::prelude::*;

pub mod geometry;
pub mod units;
pub mod host;
pub mod view;
pub mod widgets;
pub mod layout;
pub mod screen;
pub mod device;
pub mod cells;
pub mod activities;
