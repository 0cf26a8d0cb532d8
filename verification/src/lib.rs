//! A feed-forward neural-network training engine over exact integer
//! arithmetic: layers compose into a sequential model, forward passes are
//! cached per unroll step, gradients are accumulated by backward passes in
//! reverse time and reverse layer order, and a momentum SGD optimizer applies
//! the update to a flattened view of the parameter store.

pub mod activations;
pub mod data;
pub mod error;
pub mod initializations;
pub mod layer;
pub mod loss;
pub mod model;
pub mod optimizer;
pub mod params;
pub mod ratio;
pub mod tensor;
pub mod utils;
