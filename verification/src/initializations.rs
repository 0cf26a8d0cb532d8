use vstd::prelude::*;

use crate::error::HALError;
use crate::tensor::fill;
use crate::tensor::sv_const;
use crate::tensor::Dims;
use crate::tensor::Tensor;
use crate::utils::str_eq;
use rand::RngExt;

verus! {

/// Largest magnitude of a randomly initialized element. Small against
/// `ELEM_MAX`, so that freshly initialized models have room to compute.
pub const INIT_MAX: i64 = 1024;

/// Relies on rand::rng and rand::RngExt::random_range: returns a value drawn
/// uniformly from the inclusive range, and panics only on an empty range.
#[verifier::external_body]
fn random_in(lo: i64, hi: i64) -> (x: i64)
    requires
        lo <= hi,
    ensures
        lo <= x <= hi,
{
    rand::rng().random_range(lo..=hi)
}

/// A tensor of random elements within `[-bound, bound]`. Nothing more is
/// promised of the values: they are drawn fresh on every call.
fn random_tensor(dims: Dims, lo: i64, hi: i64) -> (r: Tensor)
    requires
        dims.wf(),
        -INIT_MAX <= lo <= hi <= INIT_MAX,
    ensures
        r.wf(),
        r.dims == dims,
        forall|n: int| 0 <= n < r@.data.len() ==> lo <= #[trigger] r@.data[n] <= hi,
{
    let count = dims.element_count();
    let mut data: Vec<i64> = Vec::new();
    let mut n: usize = 0;
    while n < count
        invariant
            lo <= hi,
            -INIT_MAX <= lo,
            hi <= INIT_MAX,
            n <= count,
            data@.len() == n,
            forall|m: int| 0 <= m < n ==> lo <= #[trigger] data@[m] <= hi,
        decreases count - n,
    {
        data.push(random_in(lo, hi));
        n += 1;
    }
    let r = Tensor { dims, data };
    proof {
        assert forall|m: int| 0 <= m < r@.data.len() implies lo <= #[trigger] r@.data[m] <= hi by {
            assert(r@.data[m] == r.data@[m] as int);
        }
    }
    r
}

/// A randomly initialized tensor with zero-centered values, standing in for
/// a draw from a centered distribution.
pub fn normal(dims: Dims) -> (r: Tensor)
    requires
        dims.wf(),
    ensures
        r.wf(),
        r.dims == dims,
        forall|n: int| 0 <= n < r@.data.len() ==> -INIT_MAX <= #[trigger] r@.data[n] <= INIT_MAX,
{
    random_tensor(dims, -INIT_MAX, INIT_MAX)
}

/// A randomly initialized tensor with nonnegative values, standing in for a
/// draw from a uniform distribution on an interval.
pub fn uniform(dims: Dims) -> (r: Tensor)
    requires
        dims.wf(),
    ensures
        r.wf(),
        r.dims == dims,
        forall|n: int| 0 <= n < r@.data.len() ==> 0 <= #[trigger] r@.data[n] <= INIT_MAX,
{
    random_tensor(dims, 0, INIT_MAX)
}

/// A tensor of zeros.
pub fn zeros(dims: Dims) -> (r: Tensor)
    requires
        dims.wf(),
    ensures
        r.wf(),
        r.dims == dims,
        r@ == sv_const(dims.rows as nat, dims.cols as nat, dims.time as nat, 0),
{
    fill(dims, 0)
}

/// A tensor of ones.
pub fn ones(dims: Dims) -> (r: Tensor)
    requires
        dims.wf(),
    ensures
        r.wf(),
        r.dims == dims,
        r@ == sv_const(dims.rows as nat, dims.cols as nat, dims.time as nat, 1),
{
    fill(dims, 1)
}

/// The initializer names the registry knows.
pub open spec fn init_known(name: Seq<char>) -> bool {
    name == "normal"@ || name == "uniform"@ || name == "zeros"@ || name == "ones"@
}

/// Runtime test of `init_known`.
pub fn init_name_known(name: &str) -> (b: bool)
    ensures
        b == init_known(name@),
{
    str_eq(name, "normal") || str_eq(name, "uniform") || str_eq(name, "zeros") || str_eq(
        name,
        "ones",
    )
}

/// A tensor initialized as `name` asks. Fails with `UnknownInitializer`
/// exactly on unregistered names; every initializer keeps elements within
/// `INIT_MAX`.
pub fn get_initialization(name: &str, dims: Dims) -> (r: Result<Tensor, HALError>)
    requires
        dims.wf(),
    ensures
        r is Ok <==> init_known(name@),
        r is Ok ==> {
            &&& r->Ok_0.wf()
            &&& r->Ok_0.dims == dims
            &&& forall|n: int|
                0 <= n < r->Ok_0@.data.len() ==> -INIT_MAX <= #[trigger] r->Ok_0@.data[n]
                    <= INIT_MAX
        },
        name@ == "zeros"@ ==> r is Ok && r->Ok_0@ == sv_const(
            dims.rows as nat,
            dims.cols as nat,
            dims.time as nat,
            0,
        ),
        name@ == "ones"@ ==> r is Ok && r->Ok_0@ == sv_const(
            dims.rows as nat,
            dims.cols as nat,
            dims.time as nat,
            1,
        ),
        r is Err ==> r->Err_0 == HALError::UnknownInitializer,
{
    proof {
        broadcast use vstd::string::group_string_axioms;

        reveal_strlit("zeros");
        reveal_strlit("ones");
        assert("zeros"@.len() == 5);
        assert("ones"@.len() == 4);
        assert("zeros"@ != "ones"@);
    }
    if str_eq(name, "zeros") {
        Ok(zeros(dims))
    } else if str_eq(name, "ones") {
        Ok(ones(dims))
    } else if str_eq(name, "normal") {
        Ok(normal(dims))
    } else if str_eq(name, "uniform") {
        Ok(uniform(dims))
    } else {
        Err(HALError::UnknownInitializer)
    }
}

} // verus!
