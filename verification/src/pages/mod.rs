//! The screens.

pub mod menu;
