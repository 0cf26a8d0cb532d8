use vstd::prelude::*;

pub mod dense;

pub use self::dense::Dense;

use crate::activations::act_known;
use crate::activations::get_activation;
use crate::activations::sv_activation;
use crate::error::HALError;
use crate::tensor;
use crate::tensor::sv_add_bias;
use crate::tensor::sv_add_bias_fits;
use crate::tensor::sv_col_sums;
use crate::tensor::sv_col_sums_fits;
use crate::tensor::sv_matmul;
use crate::tensor::sv_matmul_fits;
use crate::tensor::sv_mul;
use crate::tensor::sv_mul_fits;
use crate::tensor::sv_transpose;
use crate::tensor::Tensor;
use crate::tensor::TensorView;
use crate::tensor::COUNT_MAX;
use crate::activations::sv_activation_deriv;
use crate::activations::get_derivative;

verus! {

/// The affine map before activation: `x·W` with the bias broadcast across
/// the batch rows.
pub open spec fn sv_affine(x: TensorView, w: TensorView, b: TensorView) -> TensorView {
    sv_add_bias(sv_matmul(x, w), b)
}

/// Whether the affine map is exactly representable.
pub open spec fn sv_affine_fits(x: TensorView, w: TensorView, b: TensorView) -> bool {
    x.rows * w.cols <= COUNT_MAX && sv_matmul_fits(x, w) && sv_add_bias_fits(sv_matmul(x, w), b)
}

/// The local delta of an affine layer: the incoming delta gated by the
/// activation's derivative at the cached output.
pub open spec fn sv_local_delta(act: Seq<char>, delta: TensorView, out: TensorView) -> TensorView {
    sv_mul(delta, sv_activation_deriv(act, out))
}

/// The weight gradient of an affine layer: `inputᵀ · localDelta`.
pub open spec fn sv_weight_grad(inp: TensorView, local: TensorView) -> TensorView {
    sv_matmul(sv_transpose(inp), local)
}

/// The bias gradient of an affine layer: the column sums of the local delta.
pub open spec fn sv_bias_grad(local: TensorView) -> TensorView {
    sv_col_sums(local)
}

/// The delta handed to the layer below: `localDelta · Wᵀ`.
pub open spec fn sv_prev_delta(local: TensorView, w: TensorView) -> TensorView {
    sv_matmul(local, sv_transpose(w))
}


/// Runs `activation(x·W + b)`, the bias optional and broadcast across the
/// batch. Shared by every affine layer kind.
pub fn linear(input: &Tensor, weight: &Tensor, bias: Option<&Tensor>, activation: &str) -> (r:
    Result<Tensor, HALError>)
    requires
        input.wf(),
        weight.wf(),
        input@.is_matrix(),
        weight@.is_matrix(),
        weight@.rows == input@.cols,
        match bias {
            Some(b) => b.wf() && b@.is_matrix() && b@.rows == weight@.cols && b@.cols == 1,
            None => true,
        },
    ensures
        match bias {
            Some(b) => {
                &&& (r is Ok <==> act_known(activation@) && sv_affine_fits(input@, weight@, b@))
                &&& (r is Ok ==> r->Ok_0.wf() && r->Ok_0@ == sv_activation(
                    activation@,
                    sv_affine(input@, weight@, b@),
                ))
            },
            None => {
                &&& (r is Ok <==> act_known(activation@) && input@.rows * weight@.cols <= COUNT_MAX
                    && sv_matmul_fits(input@, weight@))
                &&& (r is Ok ==> r->Ok_0.wf() && r->Ok_0@ == sv_activation(
                    activation@,
                    sv_matmul(input@, weight@),
                ))
            },
        },
        r is Err ==> r->Err_0 == HALError::ShapeMismatch || r->Err_0 == HALError::Overflow
            || r->Err_0 == HALError::UnknownActivation,
{
    let xw = match tensor::matmul(input, weight) {
        Ok(t) => t,
        Err(e) => {
            return Err(e);
        },
    };
    let z = match bias {
        Some(b) => {
            match tensor::add_bias(&xw, b) {
                Ok(t) => t,
                Err(e) => {
                    return Err(e);
                },
            }
        },
        None => xw,
    };
    get_activation(activation, &z)
}

/// Computes the backward step of `activation(x·W + b)` from the cached
/// input/output pair: the local delta, the weight gradient, and the bias
/// gradient, in that order.
pub fn linear_backward(delta: &Tensor, input: &Tensor, output: &Tensor, activation: &str) -> (r:
    Result<(Tensor, Tensor, Tensor), HALError>)
    requires
        delta.wf(),
        input.wf(),
        output.wf(),
        delta@.is_matrix(),
        input@.is_matrix(),
        output@.is_matrix(),
        output@.rows == input@.rows,
        delta@.same_shape(output@),
    ensures
        r is Ok <==> act_known(activation@) && ({
            let local = sv_local_delta(activation@, delta@, output@);
            &&& sv_mul_fits(delta@, sv_activation_deriv(activation@, output@))
            &&& sv_transpose(input@).rows * local.cols <= COUNT_MAX
            &&& sv_matmul_fits(sv_transpose(input@), local)
            &&& sv_col_sums_fits(local)
        }),
        r is Ok ==> ({
            let local = sv_local_delta(activation@, delta@, output@);
            &&& r->Ok_0.0.wf() && r->Ok_0.0@ == local
            &&& r->Ok_0.1.wf() && r->Ok_0.1@ == sv_weight_grad(input@, local)
            &&& r->Ok_0.2.wf() && r->Ok_0.2@ == sv_bias_grad(local)
        }),
        r is Err ==> r->Err_0 == HALError::ShapeMismatch || r->Err_0 == HALError::Overflow
            || r->Err_0 == HALError::UnknownActivation,
{
    let dz = match get_derivative(activation, output) {
        Ok(t) => t,
        Err(e) => {
            return Err(e);
        },
    };
    let local = match tensor::mul(delta, &dz) {
        Ok(t) => t,
        Err(e) => {
            return Err(e);
        },
    };
    let t_in = tensor::transpose(input);
    let dw = match tensor::matmul(&t_in, &local) {
        Ok(t) => t,
        Err(e) => {
            return Err(e);
        },
    };
    let db = match tensor::col_sums(&local) {
        Ok(t) => t,
        Err(e) => {
            return Err(e);
        },
    };
    Ok((local, dw, db))
}

} // verus!
