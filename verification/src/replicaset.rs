//! The replica-set controller.

pub mod controller;
pub mod laws;
pub mod names;
