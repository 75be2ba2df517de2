//! What the derive knows about the container once its attributes are read.
pub mod group;
pub mod field;
pub mod container;
