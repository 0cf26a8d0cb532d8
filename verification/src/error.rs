use vstd::prelude::*;

verus! {

/// Every failure the engine reports. Construction-time errors (an unknown
/// name, a missing configuration key) are returned before any state is
/// touched; shape and index violations abort the current call, since going on
/// with misaligned tensors would corrupt gradients undetectably.
#[derive(Clone, Copy, Debug, PartialEq, Eq, Structural)]
pub enum HALError {
    /// An activation name that the registry does not know.
    UnknownActivation,
    /// A loss name that the registry does not know.
    UnknownLoss,
    /// An initializer name that the registry does not know.
    UnknownInitializer,
    /// An optimizer name that the registry does not know.
    UnknownOptimizer,
    /// A layer type other than the supported ones.
    UnsupportedLayerType,
    /// A layer or flattened-parameter index past the end of the store.
    IndexOutOfRange,
    /// Tensor extents that do not line up for the requested operation.
    ShapeMismatch,
    /// Training was started on a model with no layers.
    NoLayers,
    /// A required key is absent from a configuration mapping.
    MissingConfigKey,
    /// An exact result does not fit within the engine's element bounds.
    Overflow,
}

impl HALError {
    /// A short stable name for the error, for reporting outside the engine.
    pub fn describe(&self) -> (r: &'static str)
        ensures
            r@.len() > 0,
    {
        proof {
            reveal_strlit("unknown activation");
            reveal_strlit("unknown loss");
            reveal_strlit("unknown initializer");
            reveal_strlit("unknown optimizer");
            reveal_strlit("unsupported layer type");
            reveal_strlit("index out of range");
            reveal_strlit("shape mismatch");
            reveal_strlit("no layers");
            reveal_strlit("missing config key");
            reveal_strlit("overflow");
        }
        match self {
            HALError::UnknownActivation => "unknown activation",
            HALError::UnknownLoss => "unknown loss",
            HALError::UnknownInitializer => "unknown initializer",
            HALError::UnknownOptimizer => "unknown optimizer",
            HALError::UnsupportedLayerType => "unsupported layer type",
            HALError::IndexOutOfRange => "index out of range",
            HALError::ShapeMismatch => "shape mismatch",
            HALError::NoLayers => "no layers",
            HALError::MissingConfigKey => "missing config key",
            HALError::Overflow => "overflow",
        }
    }
}

} // verus!
