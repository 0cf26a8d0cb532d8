use vstd::prelude::*;

mod ramp;

pub use self::ramp::RampSource;

use crate::tensor::Dims;
use crate::tensor::Tensor;
use crate::tensor::DIM_MAX;

verus! {

/// One minibatch: an input tensor and its target.
pub struct Data {
    pub input: Tensor,
    pub target: Tensor,
}

/// What a data source reports about itself: the extents of the batches it
/// serves and how many samples it holds.
#[derive(Clone, Copy, Debug, PartialEq, Eq, Structural)]
pub struct DataParams {
    pub input_dims: Dims,
    pub target_dims: Dims,
    pub num_samples: u64,
}

/// A source of minibatches. A source reports its parameters, and serves
/// training and test batches of well-formed tensors; what the values are is
/// the source's own business.
pub trait DataSouce {
    /// The parameters this source reports, fixed across calls.
    spec fn spec_info(&self) -> DataParams;

    /// Describes the source.
    fn info(&self) -> (r: DataParams)
        ensures
            r == self.spec_info(),
    ;

    /// The next training minibatch of `num_batch` rows.
    fn get_train_iter(&mut self, num_batch: u64) -> (d: Data)
        requires
            1 <= num_batch <= DIM_MAX as u64,
        ensures
            d.input.wf(),
            d.target.wf(),
    ;

    /// The next test minibatch of `num_batch` rows.
    fn get_test_iter(&mut self, num_batch: u64) -> (d: Data)
        requires
            1 <= num_batch <= DIM_MAX as u64,
        ensures
            d.input.wf(),
            d.target.wf(),
    ;
}

} // verus!
