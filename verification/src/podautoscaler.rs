//! The horizontal pod autoscaler controller.

pub mod behavior;
pub mod horizontal;
pub mod laws;
pub mod reconcile;
pub mod replica_calculator;
