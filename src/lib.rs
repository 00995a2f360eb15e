//! The parameters of a feedforward neural network: per-layer weight matrices and bias
//! columns whose shapes follow from a sequence of layer sizes, filled with uniform random
//! fractions in `[0, 1)`.

pub mod matrix;
pub mod network;
mod random;

pub use matrix::Matrix;
pub use network::{Network, TopologyError};
