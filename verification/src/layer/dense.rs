use vstd::prelude::*;

use crate::activations::act_known;
use crate::activations::sv_activation;
use crate::activations::sv_activation_deriv;
use crate::error::HALError;
use crate::layer::linear;
use crate::layer::linear_backward;
use crate::layer::sv_affine;
use crate::layer::sv_affine_fits;
use crate::layer::sv_bias_grad;
use crate::layer::sv_local_delta;
use crate::layer::sv_prev_delta;
use crate::layer::sv_weight_grad;
use crate::params::dense_shaped;
use crate::params::recorded;
use crate::params::BundleView;
use crate::params::Params;
use crate::tensor;
use crate::tensor::lemma_accumulate_linear;
use crate::tensor::lemma_add_zero;
use crate::tensor::lemma_col_sums_zero;
use crate::tensor::lemma_matmul_zero_left;
use crate::tensor::lemma_matmul_zero_right;
use crate::tensor::lemma_mul_zero;
use crate::tensor::sv_add;
use crate::tensor::sv_const;
use crate::tensor::sv_add_fits;
use crate::tensor::sv_col_sums_fits;
use crate::tensor::sv_matmul_fits;
use crate::tensor::sv_mul_fits;
use crate::tensor::sv_transpose;
use crate::tensor::Tensor;
use crate::tensor::TensorView;
use crate::tensor::COUNT_MAX;
use crate::tensor::DIM_MAX;

verus! {

/// Whether one dense forward pass is exactly representable and can be
/// cached: the activation known, the affine result in bounds, room for one
/// more unroll step.
pub open spec fn dense_forward_ok(b: BundleView, x: TensorView) -> bool {
    &&& act_known(b.activations[0])
    &&& sv_affine_fits(x, b.weights[0], b.biases[0])
    &&& b.cur < DIM_MAX
}

/// The activated output of one dense forward pass.
pub open spec fn dense_forward_out(b: BundleView, x: TensorView) -> TensorView {
    sv_activation(b.activations[0], sv_affine(x, b.weights[0], b.biases[0]))
}

/// The most recently cached input of a bundle.
pub open spec fn cached_input(b: BundleView) -> TensorView {
    b.inputs[b.cur - 1]
}

/// The most recently cached output of a bundle.
pub open spec fn cached_output(b: BundleView) -> TensorView {
    b.outputs[b.cur - 1]
}

/// The local delta of one dense backward pass, from the most recent cached
/// pair.
pub open spec fn dense_local_delta(b: BundleView, delta: TensorView) -> TensorView {
    sv_local_delta(b.activations[0], delta, cached_output(b))
}

/// Whether one dense backward pass is exactly representable: every gradient
/// and the propagated delta in bounds.
pub open spec fn dense_backward_ok(b: BundleView, delta: TensorView) -> bool {
    let local = dense_local_delta(b, delta);
    &&& act_known(b.activations[0])
    &&& sv_mul_fits(delta, sv_activation_deriv(b.activations[0], cached_output(b)))
    &&& sv_transpose(cached_input(b)).rows * local.cols <= COUNT_MAX
    &&& sv_matmul_fits(sv_transpose(cached_input(b)), local)
    &&& sv_col_sums_fits(local)
    &&& sv_add_fits(b.deltas[0], sv_weight_grad(cached_input(b), local))
    &&& sv_add_fits(b.deltas[1], sv_bias_grad(local))
    &&& local.rows * sv_transpose(b.weights[0]).cols <= COUNT_MAX
    &&& sv_matmul_fits(local, sv_transpose(b.weights[0]))
}

/// The bundle after one dense backward pass: the weight and bias gradients
/// accumulated — added to, never overwriting — and the unroll cursor stepped
/// back onto the consumed cached pair.
pub open spec fn dense_backward_bundle(b: BundleView, delta: TensorView) -> BundleView {
    let local = dense_local_delta(b, delta);
    BundleView {
        deltas: b.deltas.update(0, sv_add(b.deltas[0], sv_weight_grad(cached_input(b), local))).update(
            1,
            sv_add(b.deltas[1], sv_bias_grad(local)),
        ),
        cur: (b.cur - 1) as nat,
        ..b
    }
}

/// The delta one dense backward pass hands to the layer below.
pub open spec fn dense_backward_out(b: BundleView, delta: TensorView) -> TensorView {
    sv_prev_delta(dense_local_delta(b, delta), b.weights[0])
}

/// For any dense layer and any valid sizes — batch, input, output — a
/// forward pass yields an output of shape `[batch, output]`, and a backward
/// pass through the pair just cached, fed a delta of the output's shape,
/// hands back a delta of the layer's input shape `[batch, input]`.
pub proof fn lemma_forward_backward_shape(
    b: BundleView,
    x: TensorView,
    delta: TensorView,
    input_size: int,
    output_size: int,
)
    requires
        dense_shaped(b, input_size, output_size),
        x.is_matrix(),
        x.cols == input_size,
        delta.is_matrix(),
        delta.rows == x.rows,
        delta.cols == output_size,
    ensures
        dense_forward_out(b, x).rows == x.rows,
        dense_forward_out(b, x).cols == output_size,
        dense_forward_out(b, x).is_matrix(),
        ({
            let b2 = recorded(b, x, dense_forward_out(b, x));
            let back = dense_backward_out(b2, delta);
            &&& back.rows == x.rows
            &&& back.cols == input_size
            &&& back.is_matrix()
        }),
{
    let out = dense_forward_out(b, x);
    assert(out.rows == x.rows && out.cols == output_size && out.time == 1);
    let b2 = recorded(b, x, out);
    assert(b2.cur == b.cur + 1);
    assert(cached_output(b2) == out);
    assert(b2.weights[0] == b.weights[0]);
    assert(b2.activations[0] == b.activations[0]);
    let local = dense_local_delta(b2, delta);
    assert(local.rows == delta.rows && local.cols == delta.cols && local.time == 1);
    assert(dense_backward_out(b2, delta).rows == local.rows);
    assert(dense_backward_out(b2, delta).cols == sv_transpose(b.weights[0]).cols);
}

/// Gradient accumulation is additive: two backward passes in a row, without
/// an optimizer update between them, leave each gradient equal to its
/// starting value plus the sum of the two single-pass contributions.
pub proof fn lemma_backward_accumulates(
    b: BundleView,
    d1: TensorView,
    d2: TensorView,
    input_size: int,
    output_size: int,
)
    requires
        dense_shaped(b, input_size, output_size),
        b.cur >= 2,
        d1.is_matrix(),
        d1.rows == cached_output(b).rows,
        d1.cols == output_size,
        d2.is_matrix(),
        d2.cols == output_size,
    ensures
        ({
            let b1 = dense_backward_bundle(b, d1);
            let g1w = sv_weight_grad(cached_input(b), dense_local_delta(b, d1));
            let g1b = sv_bias_grad(dense_local_delta(b, d1));
            let g2w = sv_weight_grad(cached_input(b1), dense_local_delta(b1, d2));
            let g2b = sv_bias_grad(dense_local_delta(b1, d2));
            let after = dense_backward_bundle(b1, d2);
            &&& after.deltas[0] == sv_add(b.deltas[0], sv_add(g1w, g2w))
            &&& after.deltas[1] == sv_add(b.deltas[1], sv_add(g1b, g2b))
            &&& after.cur == b.cur - 2
        }),
{
    let b1 = dense_backward_bundle(b, d1);
    let g1w = sv_weight_grad(cached_input(b), dense_local_delta(b, d1));
    let g1b = sv_bias_grad(dense_local_delta(b, d1));
    let g2w = sv_weight_grad(cached_input(b1), dense_local_delta(b1, d2));
    let g2b = sv_bias_grad(dense_local_delta(b1, d2));
    let after = dense_backward_bundle(b1, d2);
    assert(b1.deltas[0] == sv_add(b.deltas[0], g1w));
    assert(b1.deltas[1] == sv_add(b.deltas[1], g1b));
    assert(after.deltas[0] == sv_add(sv_add(b.deltas[0], g1w), g2w));
    assert(after.deltas[1] == sv_add(sv_add(b.deltas[1], g1b), g2b));
    assert(b.deltas[0].wf() && b.deltas[1].wf());
    assert(b.weights[0].same_shape(b.deltas[0]));
    assert(b.biases[0].same_shape(b.deltas[1]));
    assert(b.deltas[0].data.len() == b.deltas[0].rows * b.deltas[0].cols * b.deltas[0].time);
    assert(g1w.data.len() == input_size * output_size);
    assert(g2w.data.len() == input_size * output_size);
    assert(b.deltas[0].data.len() == input_size * output_size);
    lemma_accumulate_linear(b.deltas[0], g1w, g2w);
    assert(g1b.data.len() == output_size * 1);
    assert(g2b.data.len() == output_size * 1);
    assert(b.deltas[1].data.len() == output_size * 1);
    lemma_accumulate_linear(b.deltas[1], g1b, g2b);
}

/// A masked step contributes nothing: a backward pass fed an all-zero delta
/// leaves every gradient exactly as it was, consumes its cached pair, and
/// propagates an all-zero delta to the layer below.
pub proof fn lemma_masked_backward(b: BundleView, input_size: int, output_size: int, batch: nat)
    requires
        dense_shaped(b, input_size, output_size),
        b.cur >= 1,
        batch >= 1,
        cached_output(b).rows == batch,
    ensures
        dense_backward_bundle(b, sv_const(batch, output_size as nat, 1, 0)).deltas == b.deltas,
        dense_backward_bundle(b, sv_const(batch, output_size as nat, 1, 0)).cur == b.cur - 1,
        dense_backward_out(b, sv_const(batch, output_size as nat, 1, 0)) == sv_const(
            batch,
            input_size as nat,
            1,
            0,
        ),
{
    let z = sv_const(batch, output_size as nat, 1, 0);
    let dz = sv_activation_deriv(b.activations[0], cached_output(b));
    lemma_mul_zero(batch, output_size as nat, 1, dz);
    assert(dense_local_delta(b, z) == z);
    let inp = cached_input(b);
    let tin = sv_transpose(inp);
    assert(tin.rows == input_size && tin.cols == batch);
    assert(z == sv_const(tin.cols, output_size as nat, 1, 0));
    lemma_matmul_zero_right(tin, output_size as nat);
    assert(sv_weight_grad(inp, z) == sv_const(input_size as nat, output_size as nat, 1, 0));
    lemma_col_sums_zero(batch, output_size as nat);
    assert(sv_bias_grad(z) == sv_const(output_size as nat, 1, 1, 0));
    assert(b.deltas[0].wf() && b.deltas[1].wf());
    assert(b.weights[0].same_shape(b.deltas[0]));
    assert(b.biases[0].same_shape(b.deltas[1]));
    assert(b.deltas[0].rows == input_size && b.deltas[0].cols == output_size && b.deltas[0].time
        == 1);
    assert(b.deltas[1].rows == output_size && b.deltas[1].cols == 1 && b.deltas[1].time == 1);
    lemma_add_zero(b.deltas[0]);
    lemma_add_zero(b.deltas[1]);
    assert(sv_add(b.deltas[0], sv_weight_grad(inp, z)) == b.deltas[0]);
    assert(sv_add(b.deltas[1], sv_bias_grad(z)) == b.deltas[1]);
    assert(dense_backward_bundle(b, z).deltas =~= b.deltas);
    lemma_matmul_zero_left(batch, output_size as nat, sv_transpose(b.weights[0]));
    assert(z == sv_const(batch, output_size as nat, 1, 0));
    assert(sv_transpose(b.weights[0]).cols == input_size);
    assert(dense_backward_out(b, z) == sv_const(batch, input_size as nat, 1, 0));
}

/// A dense layer: an affine transform plus activation, its learnable state
/// held in one bundle of the parameter store.
#[derive(Debug, Clone, Copy, PartialEq, Eq, Structural)]
pub struct Dense {
    pub input_size: usize,
    pub output_size: usize,
}

impl Dense {
    /// Computes `activation(input·W + b)` against the layer's bundle, caches
    /// the input/output pair at the bundle's unroll cursor, and returns the
    /// activated output.
    pub fn forward(&self, params: &mut Params, inputs: &Tensor) -> (r: Result<Tensor, HALError>)
        requires
            old(params)@.wf(),
            dense_shaped(old(params)@, self.input_size as int, self.output_size as int),
            inputs.wf(),
            inputs@.is_matrix(),
            inputs@.cols == self.input_size,
        ensures
            final(params)@.wf(),
            dense_shaped(final(params)@, self.input_size as int, self.output_size as int),
            r is Ok <==> dense_forward_ok(old(params)@, inputs@),
            r is Ok ==> {
                &&& r->Ok_0.wf()
                &&& r->Ok_0@ == dense_forward_out(old(params)@, inputs@)
                &&& r->Ok_0@.rows == inputs@.rows
                &&& r->Ok_0@.cols == self.output_size
                &&& final(params)@ == recorded(
                    old(params)@,
                    inputs@,
                    dense_forward_out(old(params)@, inputs@),
                )
            },
            r is Err ==> final(params)@ == old(params)@,
            r is Err ==> r->Err_0 == HALError::ShapeMismatch || r->Err_0 == HALError::Overflow
                || r->Err_0 == HALError::UnknownActivation,
    {
        if params.current_unroll >= DIM_MAX {
            return Err(HALError::Overflow);
        }
        proof {
            assert(old(params)@.weights[0] == params.weights@[0]@);
            assert(old(params)@.biases[0] == params.biases@[0]@);
            assert(old(params)@.activations[0] == params.activations@[0]@);
        }
        let act: &str = params.activations[0].as_str();
        let out = match linear(inputs, &params.weights[0], Some(&params.biases[0]), act) {
            Ok(t) => t,
            Err(e) => {
                return Err(e);
            },
        };
        let ghost outv = out@;
        proof {
            assert(outv == dense_forward_out(old(params)@, inputs@));
            assert(outv.rows == inputs@.rows && outv.cols == self.output_size && outv.time == 1);
        }
        let result = out.duplicate();
        params.record_forward(inputs.duplicate(), out);
        proof {
            let b2 = final(params)@;
            assert(b2 == recorded(old(params)@, inputs@, outv));
            assert forall|s: int| 0 <= s < b2.inputs.len() implies (#[trigger] b2.inputs[s]).cols
                == self.input_size && b2.inputs[s].is_matrix() && b2.outputs[s].cols
                == self.output_size && b2.outputs[s].is_matrix() && b2.outputs[s].rows
                == b2.inputs[s].rows by {
                if s < old(params)@.inputs.len() && s != old(params)@.cur {
                    assert(b2.inputs[s] == old(params)@.inputs[s]);
                    assert(b2.outputs[s] == old(params)@.outputs[s]);
                }
            }
        }
        Ok(result)
    }

    /// Consumes the most recent cached input/output pair: gates the incoming
    /// delta by the activation derivative at the cached output, accumulates
    /// `inputᵀ·localDelta` and the local delta's column sums into the weight
    /// and bias gradients, and returns `localDelta·Wᵀ` for the layer below.
    /// This is the only place per-layer gradient arithmetic happens; it knows
    /// nothing of losses or the optimizer.
    pub fn backward(&self, params: &mut Params, delta: &Tensor) -> (r: Result<Tensor, HALError>)
        requires
            old(params)@.wf(),
            dense_shaped(old(params)@, self.input_size as int, self.output_size as int),
            old(params)@.cur >= 1,
            delta.wf(),
            delta@.is_matrix(),
            delta@.rows == cached_output(old(params)@).rows,
            delta@.cols == self.output_size,
        ensures
            final(params)@.wf(),
            dense_shaped(final(params)@, self.input_size as int, self.output_size as int),
            r is Ok <==> dense_backward_ok(old(params)@, delta@),
            r is Ok ==> {
                &&& r->Ok_0.wf()
                &&& r->Ok_0@ == dense_backward_out(old(params)@, delta@)
                &&& r->Ok_0@.rows == delta@.rows
                &&& r->Ok_0@.cols == self.input_size
                &&& final(params)@ == dense_backward_bundle(old(params)@, delta@)
            },
            r is Err ==> final(params)@ == old(params)@,
            r is Err ==> r->Err_0 == HALError::ShapeMismatch || r->Err_0 == HALError::Overflow
                || r->Err_0 == HALError::UnknownActivation,
    {
        let cur = params.current_unroll;
        proof {
            assert(old(params)@.weights[0] == params.weights@[0]@);
            assert(old(params)@.activations[0] == params.activations@[0]@);
            assert(cached_input(old(params)@) == params.inputs@[cur - 1]@);
            assert(cached_output(old(params)@) == params.outputs@[cur - 1]@);
            assert(old(params)@.deltas[0] == params.deltas@[0]@);
            assert(old(params)@.deltas[1] == params.deltas@[1]@);
            assert(cached_input(old(params)@).rows == cached_output(old(params)@).rows);
        }
        let act: &str = params.activations[0].as_str();
        let parts = match linear_backward(
            delta,
            &params.inputs[cur - 1],
            &params.outputs[cur - 1],
            act,
        ) {
            Ok(t) => t,
            Err(e) => {
                return Err(e);
            },
        };
        let (local, dw, db) = parts;
        let nd0 = match tensor::add(&params.deltas[0], &dw) {
            Ok(t) => t,
            Err(e) => {
                return Err(e);
            },
        };
        let nd1 = match tensor::add(&params.deltas[1], &db) {
            Ok(t) => t,
            Err(e) => {
                return Err(e);
            },
        };
        let w_t = tensor::transpose(&params.weights[0]);
        let back = match tensor::matmul(&local, &w_t) {
            Ok(t) => t,
            Err(e) => {
                return Err(e);
            },
        };
        params.deltas[0] = nd0;
        params.deltas[1] = nd1;
        params.current_unroll = cur - 1;
        proof {
            let b2 = dense_backward_bundle(old(params)@, delta@);
            assert(final(params)@.deltas =~= b2.deltas);
            assert(final(params)@ =~~= b2);
            assert(final(params)@.wf());
        }
        Ok(back)
    }
}

} // verus!
