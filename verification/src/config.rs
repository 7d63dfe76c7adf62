//! Configuration of the components.

pub mod kubelet;
