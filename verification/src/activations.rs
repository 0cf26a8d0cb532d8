use vstd::prelude::*;

use crate::error::HALError;
use crate::tensor::fill;
use crate::tensor::sv_const;
use crate::tensor::Dims;
use crate::tensor::Tensor;
use crate::tensor::TensorView;
use crate::utils::str_eq;

verus! {

/// The rectified view: negative elements clamped to zero.
pub open spec fn sv_relu(a: TensorView) -> TensorView {
    TensorView {
        rows: a.rows,
        cols: a.cols,
        time: a.time,
        data: Seq::new(
            a.data.len(),
            |n: int|
                if a.data[n] > 0 {
                    a.data[n]
                } else {
                    0
                },
        ),
    }
}

/// The derivative of the rectifier, read off its own output: one where the
/// output is positive, zero elsewhere.
pub open spec fn sv_relu_deriv(a: TensorView) -> TensorView {
    TensorView {
        rows: a.rows,
        cols: a.cols,
        time: a.time,
        data: Seq::new(
            a.data.len(),
            |n: int|
                if a.data[n] > 0 {
                    1
                } else {
                    0
                },
        ),
    }
}

/// The activation names the registry knows.
pub open spec fn act_known(name: Seq<char>) -> bool {
    name == "relu"@ || name == "identity"@
}

/// What a known activation does to its input.
pub open spec fn sv_activation(name: Seq<char>, z: TensorView) -> TensorView {
    if name == "relu"@ {
        sv_relu(z)
    } else {
        z
    }
}

/// The derivative of a known activation, evaluated at its cached output.
pub open spec fn sv_activation_deriv(name: Seq<char>, out: TensorView) -> TensorView {
    if name == "relu"@ {
        sv_relu_deriv(out)
    } else {
        sv_const(out.rows, out.cols, out.time, 1)
    }
}

/// The rectifier, exact and total: elements never grow.
pub fn relu(x: &Tensor) -> (r: Tensor)
    requires
        x.wf(),
    ensures
        r.wf(),
        r@ == sv_relu(x@),
        r.dims == x.dims,
{
    let len = x.data.len();
    let mut data: Vec<i64> = Vec::new();
    let mut n: usize = 0;
    while n < len
        invariant
            x.wf(),
            len == x.data@.len(),
            n <= len,
            data@.len() == n,
            forall|m: int| 0 <= m < n ==> #[trigger] data@[m] as int == sv_relu(x@).data[m],
            forall|m: int| 0 <= m < n ==> crate::tensor::elem_ok(#[trigger] data@[m] as int),
        decreases len - n,
    {
        proof {
            assert(x@.data[n as int] == x.data@[n as int] as int);
            assert(crate::tensor::elem_ok(x@.data[n as int]));
        }
        let v = x.data[n];
        let y: i64 = if v > 0 {
            v
        } else {
            0
        };
        data.push(y);
        n += 1;
    }
    let r = Tensor { dims: x.dims, data };
    proof {
        assert forall|m: int| 0 <= m < r@.data.len() implies #[trigger] r@.data[m] == sv_relu(
            x@,
        ).data[m] && crate::tensor::elem_ok(r@.data[m]) by {
            assert(r@.data[m] == r.data@[m] as int);
        }
        assert(r@.data =~= sv_relu(x@).data);
        assert(r@ == sv_relu(x@));
    }
    r
}

/// The rectifier's derivative at a cached output: an indicator tensor.
pub fn relu_derivative(x: &Tensor) -> (r: Tensor)
    requires
        x.wf(),
    ensures
        r.wf(),
        r@ == sv_relu_deriv(x@),
        r.dims == x.dims,
{
    let len = x.data.len();
    let mut data: Vec<i64> = Vec::new();
    let mut n: usize = 0;
    while n < len
        invariant
            x.wf(),
            len == x.data@.len(),
            n <= len,
            data@.len() == n,
            forall|m: int| 0 <= m < n ==> #[trigger] data@[m] as int == sv_relu_deriv(x@).data[m],
            forall|m: int| 0 <= m < n ==> crate::tensor::elem_ok(#[trigger] data@[m] as int),
        decreases len - n,
    {
        proof {
            assert(x@.data[n as int] == x.data@[n as int] as int);
        }
        let v = x.data[n];
        let y: i64 = if v > 0 {
            1
        } else {
            0
        };
        data.push(y);
        n += 1;
    }
    let r = Tensor { dims: x.dims, data };
    proof {
        assert forall|m: int| 0 <= m < r@.data.len() implies #[trigger] r@.data[m]
            == sv_relu_deriv(x@).data[m] && crate::tensor::elem_ok(r@.data[m]) by {
            assert(r@.data[m] == r.data@[m] as int);
        }
        assert(r@.data =~= sv_relu_deriv(x@).data);
        assert(r@ == sv_relu_deriv(x@));
    }
    r
}

/// Applies the activation registered under `name` to `x`. Fails with
/// `UnknownActivation` exactly on unregistered names.
pub fn get_activation(name: &str, x: &Tensor) -> (r: Result<Tensor, HALError>)
    requires
        x.wf(),
    ensures
        r is Ok <==> act_known(name@),
        r is Ok ==> r->Ok_0.wf() && r->Ok_0@ == sv_activation(name@, x@) && r->Ok_0.dims == x.dims,
        r is Err ==> r->Err_0 == HALError::UnknownActivation,
{
    if str_eq(name, "relu") {
        Ok(relu(x))
    } else if str_eq(name, "identity") {
        Ok(x.duplicate())
    } else {
        Err(HALError::UnknownActivation)
    }
}

/// The derivative of the activation registered under `name`, evaluated at a
/// cached output tensor. Fails with `UnknownActivation` exactly on
/// unregistered names.
pub fn get_derivative(name: &str, out: &Tensor) -> (r: Result<Tensor, HALError>)
    requires
        out.wf(),
    ensures
        r is Ok <==> act_known(name@),
        r is Ok ==> r->Ok_0.wf() && r->Ok_0@ == sv_activation_deriv(name@, out@),
        r is Err ==> r->Err_0 == HALError::UnknownActivation,
{
    if str_eq(name, "relu") {
        Ok(relu_derivative(out))
    } else if str_eq(name, "identity") {
        let d = Dims { rows: out.dims.rows, cols: out.dims.cols, time: out.dims.time, extra: 1 };
        Ok(fill(d, 1))
    } else {
        Err(HALError::UnknownActivation)
    }
}

} // verus!
