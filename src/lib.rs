//! Dense matrices over an abstract numeric element, and a one-hidden-layer
//! feed-forward network trained by online backpropagation.
//!
//! Matrix entries are any type implementing [`Real`]. Every arithmetic step
//! on entries goes through that trait, so the contracts here describe results
//! exactly, as expressions over the trait's specification functions.
pub mod element;
pub mod model;
pub mod matrix;
pub mod network;
pub mod laws;

pub use element::Real;
pub use matrix::{Matrix, MatrixError};
pub use model::ElementOp;
pub use network::{d_sigmoid, gtvec, sigmoid, NeuralNet};
