mod sequential;

pub use self::sequential::backward_layers_spec;
pub use self::sequential::backward_steps_spec;
pub use self::sequential::forward_spec;
pub use self::sequential::masked_out;
pub use self::sequential::mse_ratio;
pub use self::sequential::Sequential;
