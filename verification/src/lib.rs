//! Nimbus for Wayland: the decisions behind a ring of light around the window
//! that has keyboard focus.

pub mod config;
pub mod control;
pub mod focus;
pub mod install;
pub mod json;
pub mod render;
pub mod ring;
pub mod style;
pub mod text;
