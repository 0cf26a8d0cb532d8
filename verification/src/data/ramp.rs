use vstd::prelude::*;

use crate::data::Data;
use crate::data::DataParams;
use crate::data::DataSouce;
use crate::error::HALError;
use crate::tensor::elem_ok;
use crate::tensor::Dims;
use crate::tensor::Tensor;

verus! {

/// Largest ramp value: batches cycle through `0 .. RAMP_PERIOD`.
pub const RAMP_PERIOD: u64 = 1024;

/// A deterministic data source: each batch is a rising ramp of small
/// integers, phase-shifted one step per draw, and each target equals its
/// input — an autoencoding task. Exists so that training runs end to end
/// without any outside input.
pub struct RampSource {
    pub params: DataParams,
    offset: u64,
}

impl RampSource {
    /// A ramp source serving `[batch_size, input_size]` batches and
    /// reporting `max_samples` samples.
    pub fn new(input_size: usize, batch_size: usize, max_samples: u64) -> (r: Result<
        RampSource,
        HALError,
    >)
        ensures
            r is Ok <==> (Dims {
                rows: batch_size,
                cols: input_size,
                time: 1,
                extra: 1,
            }).wf(),
            r is Ok ==> r->Ok_0.spec_info() == (DataParams {
                input_dims: Dims { rows: batch_size, cols: input_size, time: 1, extra: 1 },
                target_dims: Dims { rows: batch_size, cols: input_size, time: 1, extra: 1 },
                num_samples: max_samples,
            }),
            r is Err ==> r->Err_0 == HALError::ShapeMismatch,
    {
        let dims = Dims { rows: batch_size, cols: input_size, time: 1, extra: 1 };
        if !dims.check() {
            return Err(HALError::ShapeMismatch);
        }
        Ok(
            RampSource {
                params: DataParams { input_dims: dims, target_dims: dims, num_samples: max_samples },
                offset: 0,
            },
        )
    }

    /// One ramp tensor of the source's own extents, starting at the current
    /// phase.
    fn generate_ramp(&self) -> (t: Tensor)
        requires
            self.params.input_dims.wf(),
        ensures
            t.wf(),
            t.dims == self.params.input_dims,
    {
        let dims = self.params.input_dims;
        let count = dims.element_count();
        let mut data: Vec<i64> = Vec::new();
        let mut n: usize = 0;
        while n < count
            invariant
                n <= count,
                data@.len() == n,
                forall|m: int| 0 <= m < n ==> 0 <= #[trigger] data@[m] <= RAMP_PERIOD,
            decreases count - n,
        {
            let v = ((self.offset % RAMP_PERIOD) + ((n as u64) % RAMP_PERIOD)) % RAMP_PERIOD;
            data.push(v as i64);
            n += 1;
        }
        let t = Tensor { dims, data };
        proof {
            assert forall|m: int| 0 <= m < t@.data.len() implies elem_ok(#[trigger] t@.data[m]) by {
                assert(t@.data[m] == t.data@[m] as int);
            }
        }
        t
    }
}

impl DataSouce for RampSource {
    closed spec fn spec_info(&self) -> DataParams {
        self.params
    }

    fn info(&self) -> (r: DataParams) {
        self.params
    }

    fn get_train_iter(&mut self, _num_batch: u64) -> (d: Data) {
        let mut dims = self.params.input_dims;
        if !dims.check() {
            dims = Dims { rows: 1, cols: 1, time: 1, extra: 1 };
            let input = crate::tensor::fill(dims, 0);
            let target = crate::tensor::fill(dims, 0);
            return Data { input, target };
        }
        let input = self.generate_ramp();
        let target = input.duplicate();
        self.offset = (self.offset % RAMP_PERIOD) + 1;
        Data { input, target }
    }

    fn get_test_iter(&mut self, num_batch: u64) -> (d: Data) {
        self.get_train_iter(num_batch)
    }
}

} // verus!
