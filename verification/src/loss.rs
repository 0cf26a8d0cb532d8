use vstd::prelude::*;

use crate::error::HALError;
use crate::ratio::Ratio;
use crate::tensor;
use crate::tensor::sv_mul;
use crate::tensor::sv_mul_fits;
use crate::tensor::sv_sub;
use crate::tensor::sv_sub_fits;
use crate::tensor::sv_total;
use crate::tensor::total_sum;
use crate::tensor::Tensor;
use crate::tensor::TensorView;
use crate::utils::str_eq;

verus! {

/// Elementwise squared error `(pred - target)^2`.
pub open spec fn sv_l2(pred: TensorView, target: TensorView) -> TensorView {
    sv_mul(sv_sub(pred, target), sv_sub(pred, target))
}

/// Whether the squared error is exactly representable.
pub open spec fn sv_l2_fits(pred: TensorView, target: TensorView) -> bool {
    sv_sub_fits(pred, target) && sv_mul_fits(sv_sub(pred, target), sv_sub(pred, target))
}

/// The loss names the registry knows.
pub open spec fn loss_known(name: Seq<char>) -> bool {
    name == "mse"@
}

/// The exact mean-squared-error numerator and denominator: half the mean of
/// the squared errors is `sum / (2 * count)`.
pub open spec fn mse_num(pred: TensorView, target: TensorView) -> int {
    sv_total(sv_l2(pred, target), pred.data.len())
}

/// Elementwise squared error of a prediction against a target of the same
/// shape. `Overflow` exactly when some difference or square leaves bounds.
pub fn l2_vec(pred: &Tensor, target: &Tensor) -> (r: Result<Tensor, HALError>)
    requires
        pred.wf(),
        target.wf(),
        pred@.same_shape(target@),
    ensures
        r is Ok <==> sv_l2_fits(pred@, target@),
        r is Ok ==> r->Ok_0.wf() && r->Ok_0@ == sv_l2(pred@, target@) && r->Ok_0.dims == pred.dims,
        r is Err ==> r->Err_0 == HALError::Overflow,
{
    let diff = match tensor::sub(pred, target) {
        Ok(d) => d,
        Err(e) => {
            return Err(e);
        },
    };
    tensor::mul(&diff, &diff)
}

/// Half the mean of the squared errors, as an exact rational
/// `sum / (2 * count)`.
pub fn mse(pred: &Tensor, target: &Tensor) -> (r: Result<Ratio, HALError>)
    requires
        pred.wf(),
        target.wf(),
        pred@.same_shape(target@),
    ensures
        r is Ok <==> sv_l2_fits(pred@, target@),
        r is Ok ==> {
            &&& r->Ok_0.wf()
            &&& r->Ok_0.num as int == mse_num(pred@, target@)
            &&& r->Ok_0.den as int == 2 * pred@.data.len()
        },
        r is Err ==> r->Err_0 == HALError::Overflow,
{
    let sq = match l2_vec(pred, target) {
        Ok(t) => t,
        Err(e) => {
            return Err(e);
        },
    };
    let num = total_sum(&sq);
    proof {
        tensor::lemma_count_bounds(sq@.rows as int, sq@.cols as int, sq@.time as int);
        assert(1 <= sq.data@.len() <= tensor::COUNT_MAX);
        assert(sq@.data.len() == pred@.data.len());
    }
    let den = 2 * (sq.data.len() as i64);
    Ok(Ratio { num, den })
}

/// The derivative of the mean-squared error with respect to the prediction:
/// `pred - target`, elementwise.
pub fn mse_derivative(pred: &Tensor, target: &Tensor) -> (r: Result<Tensor, HALError>)
    requires
        pred.wf(),
        target.wf(),
        pred@.same_shape(target@),
    ensures
        r is Ok <==> sv_sub_fits(pred@, target@),
        r is Ok ==> r->Ok_0.wf() && r->Ok_0@ == sv_sub(pred@, target@) && r->Ok_0.dims
            == pred.dims,
        r is Err ==> r->Err_0 == HALError::Overflow,
{
    tensor::sub(pred, target)
}

/// The loss value registered under `name`. Fails with `UnknownLoss` exactly
/// on unregistered names, `Overflow` when the exact value is unrepresentable.
pub fn get_loss(name: &str, pred: &Tensor, target: &Tensor) -> (r: Result<Ratio, HALError>)
    requires
        pred.wf(),
        target.wf(),
        pred@.same_shape(target@),
    ensures
        r is Ok <==> loss_known(name@) && sv_l2_fits(pred@, target@),
        r is Ok ==> {
            &&& r->Ok_0.wf()
            &&& r->Ok_0.num as int == mse_num(pred@, target@)
            &&& r->Ok_0.den as int == 2 * pred@.data.len()
        },
        r is Err ==> r->Err_0 == HALError::UnknownLoss || r->Err_0 == HALError::Overflow,
        r is Err && r->Err_0 == HALError::UnknownLoss <==> !loss_known(name@),
{
    if str_eq(name, "mse") {
        mse(pred, target)
    } else {
        Err(HALError::UnknownLoss)
    }
}

/// The loss derivative registered under `name`, with the same error rule as
/// `get_loss`.
pub fn get_loss_derivative(name: &str, pred: &Tensor, target: &Tensor) -> (r: Result<
    Tensor,
    HALError,
>)
    requires
        pred.wf(),
        target.wf(),
        pred@.same_shape(target@),
    ensures
        r is Ok <==> loss_known(name@) && sv_sub_fits(pred@, target@),
        r is Ok ==> r->Ok_0.wf() && r->Ok_0@ == sv_sub(pred@, target@) && r->Ok_0.dims
            == pred.dims,
        r is Err ==> r->Err_0 == HALError::UnknownLoss || r->Err_0 == HALError::Overflow,
        r is Err && r->Err_0 == HALError::UnknownLoss <==> !loss_known(name@),
{
    if str_eq(name, "mse") {
        mse_derivative(pred, target)
    } else {
        Err(HALError::UnknownLoss)
    }
}

} // verus!
