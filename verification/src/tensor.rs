use vstd::prelude::*;

use crate::error::HALError;
use crate::ratio::lemma_tdiv_bound;
use crate::ratio::tdiv;
use crate::ratio::tdiv_i128;
use vstd::arithmetic::div_mod::lemma_fundamental_div_mod_converse;

verus! {

/// Largest magnitude a stored tensor element may take. Keeping elements
/// within this bound lets every product of two elements, and every scaled
/// update, be computed exactly in 128-bit intermediates.
pub const ELEM_MAX: i64 = 0x7fff_ffff;

/// Largest extent of a single tensor axis.
pub const DIM_MAX: usize = 0x10_0000;

/// Largest total number of elements in one tensor.
pub const COUNT_MAX: usize = 0x1000_0000;

/// Extents of the four axes of a tensor: batch rows, feature columns, time
/// steps, and a reserved axis that is always 1. Weight matrices use the first
/// two axes as input rows and output columns.
#[derive(Clone, Copy, Debug, PartialEq, Eq, Structural)]
pub struct Dims {
    pub rows: usize,
    pub cols: usize,
    pub time: usize,
    pub extra: usize,
}

impl Dims {
    /// Extents the engine accepts: every axis present, none past `DIM_MAX`,
    /// the whole tensor within `COUNT_MAX` elements, reserved axis unused.
    pub open spec fn wf(self) -> bool {
        &&& 1 <= self.rows <= DIM_MAX
        &&& 1 <= self.cols <= DIM_MAX
        &&& 1 <= self.time <= DIM_MAX
        &&& self.extra == 1
        &&& self.rows * self.cols * self.time <= COUNT_MAX
    }

    /// Total number of elements.
    pub open spec fn count(self) -> int {
        self.rows * self.cols * self.time
    }

    pub fn new(rows: usize, cols: usize, time: usize) -> (d: Dims)
        ensures
            d == (Dims { rows, cols, time, extra: 1 }),
    {
        Dims { rows, cols, time, extra: 1 }
    }

    /// The extents of a matrix: one time step.
    pub fn matrix(rows: usize, cols: usize) -> (d: Dims)
        ensures
            d == (Dims { rows, cols, time: 1, extra: 1 }),
    {
        Dims { rows, cols, time: 1, extra: 1 }
    }

    /// Runtime test of `wf`, so that unverified callers can validate extents.
    pub fn check(&self) -> (r: bool)
        ensures
            r == self.wf(),
    {
        let axes_ok = 1 <= self.rows && self.rows <= DIM_MAX && 1 <= self.cols && self.cols
            <= DIM_MAX && 1 <= self.time && self.time <= DIM_MAX && self.extra == 1;
        if !axes_ok {
            return false;
        }
        proof {
            lemma_axes_product_fits(self.rows as int, self.cols as int, self.time as int);
        }
        let count = (self.rows as u64) * (self.cols as u64) * (self.time as u64);
        count <= COUNT_MAX as u64
    }

    /// Number of elements of a tensor with these extents.
    pub fn element_count(&self) -> (n: usize)
        requires
            self.wf(),
        ensures
            n == self.count(),
    {
        proof {
            lemma_count_bounds(self.rows as int, self.cols as int, self.time as int);
        }
        self.rows * self.cols * self.time
    }
}

/// The product of three axis extents stays far below `u64::MAX`.
proof fn lemma_axes_product_fits(rows: int, cols: int, time: int)
    by (nonlinear_arith)
    requires
        0 <= rows <= DIM_MAX,
        0 <= cols <= DIM_MAX,
        0 <= time <= DIM_MAX,
    ensures
        rows * cols <= 0x100_0000_0000,
        rows * cols * time <= 0x1000_0000_0000_0000,
{
}

/// Bounds used when multiplying out well-formed extents.
pub proof fn lemma_count_bounds(rows: int, cols: int, time: int)
    by (nonlinear_arith)
    requires
        1 <= rows,
        1 <= cols,
        1 <= time,
        rows * cols * time <= COUNT_MAX,
    ensures
        rows * cols <= COUNT_MAX,
        rows <= rows * cols * time,
        cols <= rows * cols * time,
        cols * time <= COUNT_MAX,
{
}

/// A flat index is inside the tensor exactly when its three coordinates are.
proof fn lemma_flat_index_bounds(rows: int, cols: int, time: int, i: int, j: int, k: int)
    by (nonlinear_arith)
    requires
        0 <= i < rows,
        0 <= j < cols,
        0 <= k < time,
    ensures
        0 <= i + rows * (j + cols * k) < rows * cols * time,
        0 <= cols * k,
        j + cols * k < cols * time,
        0 <= rows * (j + cols * k),
        rows * (j + cols * k) < rows * cols * time,
{
}

/// Mathematical contents of a tensor: the three live extents and the elements
/// in flat order, the row index varying fastest.
#[verifier::ext_equal]
pub struct TensorView {
    pub rows: nat,
    pub cols: nat,
    pub time: nat,
    pub data: Seq<int>,
}

/// Whether a mathematical element value fits the engine's element bound.
pub open spec fn elem_ok(x: int) -> bool {
    -(ELEM_MAX as int) <= x <= ELEM_MAX as int
}

impl TensorView {
    pub open spec fn wf(self) -> bool {
        &&& 1 <= self.rows <= DIM_MAX
        &&& 1 <= self.cols <= DIM_MAX
        &&& 1 <= self.time <= DIM_MAX
        &&& self.rows * self.cols * self.time <= COUNT_MAX
        &&& self.data.len() == self.rows * self.cols * self.time
        &&& forall|n: int| 0 <= n < self.data.len() ==> elem_ok(#[trigger] self.data[n])
    }

    /// The element at batch row `i`, feature column `j`, time step `k`.
    pub open spec fn at(self, i: int, j: int, k: int) -> int {
        self.data[i + self.rows * (j + self.cols * k)]
    }

    /// The element at row `i`, column `j` of a single-step tensor.
    pub open spec fn at2(self, i: int, j: int) -> int {
        self.at(i, j, 0)
    }

    pub open spec fn same_shape(self, o: TensorView) -> bool {
        self.rows == o.rows && self.cols == o.cols && self.time == o.time
    }

    /// A tensor with one time step, used as a matrix.
    pub open spec fn is_matrix(self) -> bool {
        self.time == 1
    }

    /// The shape as extents, for relating views back to `Dims` values.
    pub open spec fn shape_of(self, d: Dims) -> bool {
        self.rows == d.rows && self.cols == d.cols && self.time == d.time && d.extra == 1
    }
}

/// A dense numeric array over exact `i64` elements, the engine's unit of
/// data. Elements are kept within `ELEM_MAX` so that all arithmetic on them
/// is exact; an operation whose true result would leave that range reports
/// `HALError::Overflow` instead of returning a rounded value.
#[derive(Debug)]
pub struct Tensor {
    pub dims: Dims,
    pub data: Vec<i64>,
}

impl View for Tensor {
    type V = TensorView;

    open spec fn view(&self) -> TensorView {
        TensorView {
            rows: self.dims.rows as nat,
            cols: self.dims.cols as nat,
            time: self.dims.time as nat,
            data: self.data@.map_values(|x: i64| x as int),
        }
    }
}

impl Tensor {
    /// A tensor is well formed when its view is: extents in range and the
    /// element vector matching them.
    pub open spec fn wf(self) -> bool {
        self@.wf()
    }

    /// Builds a tensor from extents and flat contents, validating both.
    /// Returns `ShapeMismatch` when the extents are unusable or do not match
    /// the number of elements, `Overflow` when an element is out of bounds.
    pub fn new(dims: Dims, data: Vec<i64>) -> (r: Result<Tensor, HALError>)
        ensures
            r is Ok ==> {
                &&& r->Ok_0.wf()
                &&& r->Ok_0.dims == dims
                &&& r->Ok_0.data@ == data@
            },
            r is Ok <==> dims.wf() && data@.len() == dims.count() && (forall|n: int|
                0 <= n < data@.len() ==> elem_ok(#[trigger] data@[n] as int)),
    {
        if !dims.check() {
            return Err(HALError::ShapeMismatch);
        }
        if data.len() != dims.element_count() {
            return Err(HALError::ShapeMismatch);
        }
        let mut n: usize = 0;
        while n < data.len()
            invariant
                n <= data@.len(),
                forall|m: int| 0 <= m < n ==> elem_ok(#[trigger] data@[m] as int),
            decreases data@.len() - n,
        {
            let x = data[n];
            if x < -ELEM_MAX || x > ELEM_MAX {
                return Err(HALError::Overflow);
            }
            n += 1;
        }
        let t = Tensor { dims, data };
        proof {
            assert forall|m: int| 0 <= m < t@.data.len() implies elem_ok(#[trigger] t@.data[m]) by {
                assert(t@.data[m] == t.data@[m] as int);
            }
        }
        Ok(t)
    }

    /// Flat position of the element at row `i`, column `j`, step `k`.
    fn flat_index(&self, i: usize, j: usize, k: usize) -> (n: usize)
        requires
            self.wf(),
            i < self.dims.rows,
            j < self.dims.cols,
            k < self.dims.time,
        ensures
            n == i + self@.rows * (j + self@.cols * k),
            n < self@.data.len(),
    {
        proof {
            lemma_count_bounds(self.dims.rows as int, self.dims.cols as int, self.dims.time as int);
            lemma_flat_index_bounds(
                self.dims.rows as int,
                self.dims.cols as int,
                self.dims.time as int,
                i as int,
                j as int,
                k as int,
            );
        }
        i + self.dims.rows * (j + self.dims.cols * k)
    }

    /// Reads the element at row `i`, column `j`, time step `k`.
    pub fn at(&self, i: usize, j: usize, k: usize) -> (x: i64)
        requires
            self.wf(),
            i < self.dims.rows,
            j < self.dims.cols,
            k < self.dims.time,
        ensures
            x as int == self@.at(i as int, j as int, k as int),
            elem_ok(x as int),
    {
        let n = self.flat_index(i, j, k);
        self.data[n]
    }

    /// Reads the element at row `i`, column `j` of a single-step tensor.
    pub fn at2(&self, i: usize, j: usize) -> (x: i64)
        requires
            self.wf(),
            self@.is_matrix(),
            i < self.dims.rows,
            j < self.dims.cols,
        ensures
            x as int == self@.at2(i as int, j as int),
            elem_ok(x as int),
    {
        self.at(i, j, 0)
    }

    /// An exact copy with its own storage.
    pub fn duplicate(&self) -> (r: Tensor)
        requires
            self.wf(),
        ensures
            r.wf(),
            r@ == self@,
            r.dims == self.dims,
    {
        let mut data: Vec<i64> = Vec::new();
        let mut n: usize = 0;
        while n < self.data.len()
            invariant
                n <= self.data@.len(),
                data@.len() == n,
                forall|m: int| 0 <= m < n ==> data@[m] == self.data@[m],
            decreases self.data@.len() - n,
        {
            data.push(self.data[n]);
            n += 1;
        }
        let r = Tensor { dims: self.dims, data };
        proof {
            assert(r@.data =~= self@.data);
            assert(r@ == self@);
        }
        r
    }
}

/// The views of a sequence of tensors.
pub open spec fn tensor_views(ts: Seq<Tensor>) -> Seq<TensorView> {
    ts.map_values(|t: Tensor| t@)
}

/// The view of a tensor filled with one value.
pub open spec fn sv_const(rows: nat, cols: nat, time: nat, v: int) -> TensorView {
    TensorView { rows, cols, time, data: Seq::new((rows * cols * time) as nat, |n: int| v) }
}

/// A tensor of the given extents with every element equal to `val`.
pub fn fill(dims: Dims, val: i64) -> (r: Tensor)
    requires
        dims.wf(),
        elem_ok(val as int),
    ensures
        r.wf(),
        r.dims == dims,
        r@ == sv_const(dims.rows as nat, dims.cols as nat, dims.time as nat, val as int),
{
    let count = dims.element_count();
    let mut data: Vec<i64> = Vec::new();
    let mut n: usize = 0;
    while n < count
        invariant
            n <= count,
            data@.len() == n,
            forall|m: int| 0 <= m < n ==> data@[m] == val,
        decreases count - n,
    {
        data.push(val);
        n += 1;
    }
    let r = Tensor { dims, data };
    proof {
        assert(r@.data =~= sv_const(
            dims.rows as nat,
            dims.cols as nat,
            dims.time as nat,
            val as int,
        ).data);
        assert(r@ == sv_const(dims.rows as nat, dims.cols as nat, dims.time as nat, val as int));
    }
    r
}

/// The product of two in-bound elements stays within 63 bits.
pub proof fn lemma_elem_product(x: int, y: int)
    by (nonlinear_arith)
    requires
        elem_ok(x),
        elem_ok(y),
    ensures
        -0x4000_0000_0000_0000 <= x * y <= 0x4000_0000_0000_0000,
{
}

/// Elementwise sum of two same-shaped views.
pub open spec fn sv_add(a: TensorView, b: TensorView) -> TensorView {
    TensorView {
        rows: a.rows,
        cols: a.cols,
        time: a.time,
        data: Seq::new(a.data.len(), |n: int| a.data[n] + b.data[n]),
    }
}

/// Whether every elementwise sum stays within the element bound.
pub open spec fn sv_add_fits(a: TensorView, b: TensorView) -> bool {
    forall|n: int| #![trigger a.data[n]] 0 <= n < a.data.len() ==> elem_ok(a.data[n] + b.data[n])
}

/// Elementwise difference of two same-shaped views.
pub open spec fn sv_sub(a: TensorView, b: TensorView) -> TensorView {
    TensorView {
        rows: a.rows,
        cols: a.cols,
        time: a.time,
        data: Seq::new(a.data.len(), |n: int| a.data[n] - b.data[n]),
    }
}

/// Whether every elementwise difference stays within the element bound.
pub open spec fn sv_sub_fits(a: TensorView, b: TensorView) -> bool {
    forall|n: int| #![trigger a.data[n]] 0 <= n < a.data.len() ==> elem_ok(a.data[n] - b.data[n])
}

/// Elementwise product of two same-shaped views.
pub open spec fn sv_mul(a: TensorView, b: TensorView) -> TensorView {
    TensorView {
        rows: a.rows,
        cols: a.cols,
        time: a.time,
        data: Seq::new(a.data.len(), |n: int| a.data[n] * b.data[n]),
    }
}

/// Whether every elementwise product stays within the element bound.
pub open spec fn sv_mul_fits(a: TensorView, b: TensorView) -> bool {
    forall|n: int| #![trigger a.data[n]] 0 <= n < a.data.len() ==> elem_ok(a.data[n] * b.data[n])
}

/// A freshly built element vector of the right length, matching a view
/// pointwise and in bounds, yields a well-formed tensor with that view.
proof fn lemma_built_tensor(a: Tensor, data: Vec<i64>, sv: TensorView)
    requires
        a.wf(),
        sv.rows == a@.rows,
        sv.cols == a@.cols,
        sv.time == a@.time,
        sv.data.len() == a@.data.len(),
        data@.len() == a.data@.len(),
        forall|m: int| 0 <= m < data@.len() ==> #[trigger] data@[m] as int == sv.data[m],
        forall|m: int| 0 <= m < data@.len() ==> elem_ok(#[trigger] data@[m] as int),
    ensures
        (Tensor { dims: a.dims, data }).wf(),
        (Tensor { dims: a.dims, data })@ == sv,
{
    let t = Tensor { dims: a.dims, data };
    assert forall|m: int| 0 <= m < t@.data.len() implies #[trigger] t@.data[m] == sv.data[m]
        && elem_ok(t@.data[m]) by {
        assert(t@.data[m] == data@[m] as int);
    }
    assert(t@.data =~= sv.data);
    assert(t@ == sv);
}

/// Elementwise `a + b`. Exact: when some sum leaves the element bound the
/// whole operation reports `Overflow` rather than rounding.
pub fn add(a: &Tensor, b: &Tensor) -> (r: Result<Tensor, HALError>)
    requires
        a.wf(),
        b.wf(),
        a@.same_shape(b@),
    ensures
        r is Ok <==> sv_add_fits(a@, b@),
        r is Ok ==> r->Ok_0.wf() && r->Ok_0@ == sv_add(a@, b@) && r->Ok_0.dims == a.dims,
        r is Err ==> r->Err_0 == HALError::Overflow,
{
    let len = a.data.len();
    let mut data: Vec<i64> = Vec::new();
    let mut n: usize = 0;
    while n < len
        invariant
            a.wf(),
            b.wf(),
            a@.same_shape(b@),
            len == a.data@.len(),
            n <= len,
            data@.len() == n,
            forall|m: int| 0 <= m < n ==> #[trigger] data@[m] as int == a@.data[m] + b@.data[m],
            forall|m: int| 0 <= m < n ==> elem_ok(#[trigger] data@[m] as int),
        decreases len - n,
    {
        proof {
            assert(b.data@.len() == len);
            assert(a@.data[n as int] == a.data@[n as int] as int);
            assert(b@.data[n as int] == b.data@[n as int] as int);
            assert(elem_ok(a@.data[n as int]));
            assert(elem_ok(b@.data[n as int]));
        }
        let x = a.data[n] + b.data[n];
        if x < -ELEM_MAX || x > ELEM_MAX {
            proof {
                assert(!elem_ok(a@.data[n as int] + b@.data[n as int]));
                assert(!sv_add_fits(a@, b@));
            }
            return Err(HALError::Overflow);
        }
        data.push(x);
        n += 1;
    }
    proof {
        lemma_built_tensor(*a, data, sv_add(a@, b@));
        assert forall|m: int| #![trigger a@.data[m]] 0 <= m < a@.data.len() implies elem_ok(
            a@.data[m] + b@.data[m],
        ) by {
            assert(data@[m] as int == a@.data[m] + b@.data[m]);
            assert(elem_ok(data@[m] as int));
        }
        assert(sv_add_fits(a@, b@));
    }
    Ok(Tensor { dims: a.dims, data })
}

/// Elementwise `a - b`. Exact, with the same overflow rule as `add`.
pub fn sub(a: &Tensor, b: &Tensor) -> (r: Result<Tensor, HALError>)
    requires
        a.wf(),
        b.wf(),
        a@.same_shape(b@),
    ensures
        r is Ok <==> sv_sub_fits(a@, b@),
        r is Ok ==> r->Ok_0.wf() && r->Ok_0@ == sv_sub(a@, b@) && r->Ok_0.dims == a.dims,
        r is Err ==> r->Err_0 == HALError::Overflow,
{
    let len = a.data.len();
    let mut data: Vec<i64> = Vec::new();
    let mut n: usize = 0;
    while n < len
        invariant
            a.wf(),
            b.wf(),
            a@.same_shape(b@),
            len == a.data@.len(),
            n <= len,
            data@.len() == n,
            forall|m: int| 0 <= m < n ==> #[trigger] data@[m] as int == a@.data[m] - b@.data[m],
            forall|m: int| 0 <= m < n ==> elem_ok(#[trigger] data@[m] as int),
        decreases len - n,
    {
        proof {
            assert(b.data@.len() == len);
            assert(a@.data[n as int] == a.data@[n as int] as int);
            assert(b@.data[n as int] == b.data@[n as int] as int);
            assert(elem_ok(a@.data[n as int]));
            assert(elem_ok(b@.data[n as int]));
        }
        let x = a.data[n] - b.data[n];
        if x < -ELEM_MAX || x > ELEM_MAX {
            proof {
                assert(!elem_ok(a@.data[n as int] - b@.data[n as int]));
                assert(!sv_sub_fits(a@, b@));
            }
            return Err(HALError::Overflow);
        }
        data.push(x);
        n += 1;
    }
    proof {
        lemma_built_tensor(*a, data, sv_sub(a@, b@));
        assert forall|m: int| #![trigger a@.data[m]] 0 <= m < a@.data.len() implies elem_ok(
            a@.data[m] - b@.data[m],
        ) by {
            assert(data@[m] as int == a@.data[m] - b@.data[m]);
            assert(elem_ok(data@[m] as int));
        }
        assert(sv_sub_fits(a@, b@));
    }
    Ok(Tensor { dims: a.dims, data })
}

/// Elementwise `a * b`. Exact, with the same overflow rule as `add`.
pub fn mul(a: &Tensor, b: &Tensor) -> (r: Result<Tensor, HALError>)
    requires
        a.wf(),
        b.wf(),
        a@.same_shape(b@),
    ensures
        r is Ok <==> sv_mul_fits(a@, b@),
        r is Ok ==> r->Ok_0.wf() && r->Ok_0@ == sv_mul(a@, b@) && r->Ok_0.dims == a.dims,
        r is Err ==> r->Err_0 == HALError::Overflow,
{
    let len = a.data.len();
    let mut data: Vec<i64> = Vec::new();
    let mut n: usize = 0;
    while n < len
        invariant
            a.wf(),
            b.wf(),
            a@.same_shape(b@),
            len == a.data@.len(),
            n <= len,
            data@.len() == n,
            forall|m: int| 0 <= m < n ==> #[trigger] data@[m] as int == a@.data[m] * b@.data[m],
            forall|m: int| 0 <= m < n ==> elem_ok(#[trigger] data@[m] as int),
        decreases len - n,
    {
        proof {
            assert(b.data@.len() == len);
            assert(a@.data[n as int] == a.data@[n as int] as int);
            assert(b@.data[n as int] == b.data@[n as int] as int);
            assert(elem_ok(a@.data[n as int]));
            assert(elem_ok(b@.data[n as int]));
            lemma_elem_product(a@.data[n as int], b@.data[n as int]);
        }
        let x = a.data[n] * b.data[n];
        if x < -ELEM_MAX || x > ELEM_MAX {
            proof {
                assert(!elem_ok(a@.data[n as int] * b@.data[n as int]));
                assert(!sv_mul_fits(a@, b@));
            }
            return Err(HALError::Overflow);
        }
        data.push(x);
        n += 1;
    }
    proof {
        lemma_built_tensor(*a, data, sv_mul(a@, b@));
        assert forall|m: int| #![trigger a@.data[m]] 0 <= m < a@.data.len() implies elem_ok(
            a@.data[m] * b@.data[m],
        ) by {
            assert(data@[m] as int == a@.data[m] * b@.data[m]);
            assert(elem_ok(data@[m] as int));
        }
        assert(sv_mul_fits(a@, b@));
    }
    Ok(Tensor { dims: a.dims, data })
}

/// The transposed view of a matrix: element `(i, j)` of the result is
/// element `(j, i)` of the argument.
pub open spec fn sv_transpose(a: TensorView) -> TensorView {
    TensorView {
        rows: a.cols,
        cols: a.rows,
        time: 1,
        data: Seq::new(
            a.cols * a.rows,
            |n: int| a.at2(n / (a.cols as int), n % (a.cols as int)),
        ),
    }
}

/// The transpose of a matrix. Exact and total: no element changes value.
pub fn transpose(a: &Tensor) -> (r: Tensor)
    requires
        a.wf(),
        a@.is_matrix(),
    ensures
        r.wf(),
        r@ == sv_transpose(a@),
        r.dims == (Dims { rows: a.dims.cols, cols: a.dims.rows, time: 1, extra: 1 }),
{
    let rows = a.dims.rows;
    let cols = a.dims.cols;
    let mut data: Vec<i64> = Vec::new();
    let mut j: usize = 0;
    while j < rows
        invariant
            a.wf(),
            a@.is_matrix(),
            rows == a.dims.rows,
            cols == a.dims.cols,
            j <= rows,
            data@.len() == j * cols,
            forall|m: int|
                0 <= m < data@.len() ==> #[trigger] data@[m] as int == sv_transpose(a@).data[m],
            forall|m: int| 0 <= m < data@.len() ==> elem_ok(#[trigger] data@[m] as int),
        decreases rows - j,
    {
        let mut i: usize = 0;
        proof {
            lemma_count_bounds(rows as int, cols as int, a.dims.time as int);
            assert((j + 1) * cols == j * cols + cols) by (nonlinear_arith);
            assert(j * cols + cols <= rows * cols) by (nonlinear_arith)
                requires
                    j + 1 <= rows,
                    cols >= 0,
            ;
        }
        while i < cols
            invariant
                a.wf(),
                a@.is_matrix(),
                rows == a.dims.rows,
                cols == a.dims.cols,
                j < rows,
                i <= cols,
                j * cols + cols <= rows * cols,
                rows * cols <= COUNT_MAX,
                data@.len() == j * cols + i,
                forall|m: int|
                    0 <= m < data@.len() ==> #[trigger] data@[m] as int == sv_transpose(a@).data[m],
                forall|m: int| 0 <= m < data@.len() ==> elem_ok(#[trigger] data@[m] as int),
            decreases cols - i,
        {
            let x = a.at(j, i, 0);
            proof {
                assert(j * cols + i < rows * cols);
                assert(rows * cols == cols * rows) by (nonlinear_arith);
                lemma_fundamental_div_mod_converse(
                    (j * cols + i) as int,
                    cols as int,
                    j as int,
                    i as int,
                );
                assert(sv_transpose(a@).data[(j * cols + i) as int] == a@.at2(j as int, i as int));
            }
            data.push(x);
            i += 1;
        }
        j += 1;
    }
    let r = Tensor {
        dims: Dims { rows: a.dims.cols, cols: a.dims.rows, time: 1, extra: 1 },
        data,
    };
    proof {
        lemma_count_bounds(rows as int, cols as int, a.dims.time as int);
        assert(rows * cols == cols * rows) by (nonlinear_arith);
        assert forall|m: int| 0 <= m < r@.data.len() implies #[trigger] r@.data[m]
            == sv_transpose(a@).data[m] && elem_ok(r@.data[m]) by {
            assert(r@.data[m] == r.data@[m] as int);
        }
        assert(r@.data =~= sv_transpose(a@).data);
        assert(r@ == sv_transpose(a@));
    }
    r
}

/// Dot product of row `i` of `a` with column `j` of `b`, over the first `k`
/// positions.
pub open spec fn dot(a: TensorView, b: TensorView, i: int, j: int, k: nat) -> int
    decreases k,
{
    if k == 0 {
        0
    } else {
        dot(a, b, i, j, (k - 1) as nat) + a.at2(i, k - 1) * b.at2(k - 1, j)
    }
}

/// Matrix product view: `a` is `[m, k]`, `b` is `[k, n]`, the result `[m, n]`.
pub open spec fn sv_matmul(a: TensorView, b: TensorView) -> TensorView {
    TensorView {
        rows: a.rows,
        cols: b.cols,
        time: 1,
        data: Seq::new(
            a.rows * b.cols,
            |n: int| dot(a, b, n % (a.rows as int), n / (a.rows as int), a.cols),
        ),
    }
}

/// Whether every element of the matrix product stays within bounds.
pub open spec fn sv_matmul_fits(a: TensorView, b: TensorView) -> bool {
    forall|i: int, j: int|
        0 <= i < a.rows && 0 <= j < b.cols ==> elem_ok(#[trigger] dot(a, b, i, j, a.cols))
}


/// Matrix multiplication, exact over the integers. `ShapeMismatch` when the
/// result would have more than `COUNT_MAX` elements, `Overflow` when some
/// exact result element leaves the element bound.
pub fn matmul(a: &Tensor, b: &Tensor) -> (r: Result<Tensor, HALError>)
    requires
        a.wf(),
        b.wf(),
        a@.is_matrix(),
        b@.is_matrix(),
        b@.rows == a@.cols,
    ensures
        r is Ok <==> a@.rows * b@.cols <= COUNT_MAX && sv_matmul_fits(a@, b@),
        r is Ok ==> r->Ok_0.wf() && r->Ok_0@ == sv_matmul(a@, b@) && r->Ok_0.dims == (Dims {
            rows: a.dims.rows,
            cols: b.dims.cols,
            time: 1,
            extra: 1,
        }),
        r is Err ==> r->Err_0 == HALError::ShapeMismatch || r->Err_0 == HALError::Overflow,
        r is Err && r->Err_0 == HALError::ShapeMismatch <==> a@.rows * b@.cols > COUNT_MAX,
{
    let m = a.dims.rows;
    let kk = a.dims.cols;
    let nn = b.dims.cols;
    proof {
        lemma_axes_product_fits(m as int, nn as int, 1);
        assert(m * nn * 1 == m * nn) by (nonlinear_arith);
    }
    if (m as u64) * (nn as u64) > COUNT_MAX as u64 {
        return Err(HALError::ShapeMismatch);
    }
    let mut data: Vec<i64> = Vec::new();
    let mut j: usize = 0;
    while j < nn
        invariant
            a.wf(),
            b.wf(),
            a@.is_matrix(),
            b@.is_matrix(),
            b@.rows == a@.cols,
            m == a.dims.rows,
            kk == a.dims.cols,
            nn == b.dims.cols,
            m * nn <= COUNT_MAX,
            j <= nn,
            data@.len() == j * m,
            forall|m2: int|
                0 <= m2 < data@.len() ==> #[trigger] data@[m2] as int == sv_matmul(a@, b@).data[m2],
            forall|m2: int| 0 <= m2 < data@.len() ==> elem_ok(#[trigger] data@[m2] as int),
            forall|i2: int, j2: int|
                0 <= i2 < m && 0 <= j2 < j ==> elem_ok(#[trigger] dot(a@, b@, i2, j2, a@.cols)),
        decreases nn - j,
    {
        proof {
            assert((j + 1) * m == j * m + m) by (nonlinear_arith);
            assert(j * m + m <= nn * m) by (nonlinear_arith)
                requires
                    j + 1 <= nn,
                    m >= 0,
            ;
            assert(nn * m == m * nn) by (nonlinear_arith);
        }
        let mut i: usize = 0;
        while i < m
            invariant
                a.wf(),
                b.wf(),
                a@.is_matrix(),
                b@.is_matrix(),
                b@.rows == a@.cols,
                m == a.dims.rows,
                kk == a.dims.cols,
                nn == b.dims.cols,
                m * nn <= COUNT_MAX,
                j < nn,
                i <= m,
                j * m + m <= m * nn,
                data@.len() == j * m + i,
                forall|m2: int|
                    0 <= m2 < data@.len() ==> #[trigger] data@[m2] as int == sv_matmul(
                        a@,
                        b@,
                    ).data[m2],
                forall|m2: int| 0 <= m2 < data@.len() ==> elem_ok(#[trigger] data@[m2] as int),
                forall|i2: int, j2: int|
                    0 <= i2 < m && 0 <= j2 < j ==> elem_ok(#[trigger] dot(a@, b@, i2, j2, a@.cols)),
                forall|i2: int|
                    0 <= i2 < i ==> elem_ok(#[trigger] dot(a@, b@, i2, j as int, a@.cols)),
            decreases m - i,
        {
            let mut acc: i128 = 0;
            let mut k: usize = 0;
            while k < kk
                invariant
                    a.wf(),
                    b.wf(),
                    a@.is_matrix(),
                    b@.is_matrix(),
                    b@.rows == a@.cols,
                    m == a.dims.rows,
                    kk == a.dims.cols,
                    nn == b.dims.cols,
                    i < m,
                    j < nn,
                    k <= kk,
                    acc == dot(a@, b@, i as int, j as int, k as nat),
                    -((k as int) * 0x4000_0000_0000_0000) <= acc <= (k as int)
                        * 0x4000_0000_0000_0000,
                decreases kk - k,
            {
                proof {
                    lemma_flat_index_bounds(
                        a.dims.rows as int,
                        a.dims.cols as int,
                        a.dims.time as int,
                        i as int,
                        k as int,
                        0,
                    );
                    lemma_flat_index_bounds(
                        b.dims.rows as int,
                        b.dims.cols as int,
                        b.dims.time as int,
                        k as int,
                        j as int,
                        0,
                    );
                    assert(elem_ok(a@.at2(i as int, k as int)));
                    assert(elem_ok(b@.at2(k as int, j as int)));
                    lemma_elem_product(a@.at2(i as int, k as int), b@.at2(k as int, j as int));
                }
                let x = a.at(i, k, 0);
                let y = b.at(k, j, 0);
                acc = acc + (x as i128) * (y as i128);
                k += 1;
            }
            if acc < -(ELEM_MAX as i128) || acc > ELEM_MAX as i128 {
                proof {
                    assert(!elem_ok(dot(a@, b@, i as int, j as int, a@.cols)));
                    assert(!sv_matmul_fits(a@, b@));
                }
                return Err(HALError::Overflow);
            }
            proof {
                assert(j * m + i < m * nn);
                lemma_fundamental_div_mod_converse(
                    (j * m + i) as int,
                    m as int,
                    j as int,
                    i as int,
                );
                assert(sv_matmul(a@, b@).data[(j * m + i) as int] == dot(
                    a@,
                    b@,
                    i as int,
                    j as int,
                    a@.cols,
                ));
            }
            data.push(acc as i64);
            i += 1;
        }
        j += 1;
    }
    let r = Tensor { dims: Dims { rows: m, cols: nn, time: 1, extra: 1 }, data };
    proof {
        assert(nn * m == m * nn) by (nonlinear_arith);
        assert(m * nn * 1 == m * nn) by (nonlinear_arith);
        assert forall|m2: int| 0 <= m2 < r@.data.len() implies #[trigger] r@.data[m2] == sv_matmul(
            a@,
            b@,
        ).data[m2] && elem_ok(r@.data[m2]) by {
            assert(r@.data[m2] == r.data@[m2] as int);
        }
        assert(r@.data =~= sv_matmul(a@, b@).data);
        assert(r@ == sv_matmul(a@, b@));
        assert(sv_matmul_fits(a@, b@));
    }
    Ok(r)
}

/// Sum of column `j` of `a` over its first `k` rows.
pub open spec fn colsum(a: TensorView, j: int, k: nat) -> int
    decreases k,
{
    if k == 0 {
        0
    } else {
        colsum(a, j, (k - 1) as nat) + a.at2(k - 1, j)
    }
}

/// Column sums of a matrix, as a column vector `[cols, 1]`.
pub open spec fn sv_col_sums(a: TensorView) -> TensorView {
    TensorView { rows: a.cols, cols: 1, time: 1, data: Seq::new(a.cols, |n: int| colsum(a, n, a.rows)) }
}

/// Whether every column sum stays within bounds.
pub open spec fn sv_col_sums_fits(a: TensorView) -> bool {
    forall|j: int| 0 <= j < a.cols ==> elem_ok(#[trigger] colsum(a, j, a.rows))
}


/// Sums each column of a matrix into a `[cols, 1]` column vector, the shape
/// of a bias gradient. `Overflow` when some exact sum leaves the bound.
pub fn col_sums(a: &Tensor) -> (r: Result<Tensor, HALError>)
    requires
        a.wf(),
        a@.is_matrix(),
    ensures
        r is Ok <==> sv_col_sums_fits(a@),
        r is Ok ==> r->Ok_0.wf() && r->Ok_0@ == sv_col_sums(a@) && r->Ok_0.dims == (Dims {
            rows: a.dims.cols,
            cols: 1,
            time: 1,
            extra: 1,
        }),
        r is Err ==> r->Err_0 == HALError::Overflow,
{
    let rows = a.dims.rows;
    let cols = a.dims.cols;
    let mut data: Vec<i64> = Vec::new();
    let mut j: usize = 0;
    while j < cols
        invariant
            a.wf(),
            a@.is_matrix(),
            rows == a.dims.rows,
            cols == a.dims.cols,
            j <= cols,
            data@.len() == j,
            forall|m2: int|
                0 <= m2 < j ==> #[trigger] data@[m2] as int == colsum(a@, m2, a@.rows),
            forall|m2: int| 0 <= m2 < j ==> elem_ok(#[trigger] data@[m2] as int),
        decreases cols - j,
    {
        let mut acc: i128 = 0;
        let mut i: usize = 0;
        while i < rows
            invariant
                a.wf(),
                a@.is_matrix(),
                rows == a.dims.rows,
                cols == a.dims.cols,
                j < cols,
                i <= rows,
                acc == colsum(a@, j as int, i as nat),
                -((i as int) * 0x8000_0000) <= acc <= (i as int) * 0x8000_0000,
            decreases rows - i,
        {
            let x = a.at(i, j, 0);
            acc = acc + (x as i128);
            i += 1;
        }
        if acc < -(ELEM_MAX as i128) || acc > ELEM_MAX as i128 {
            proof {
                assert(!elem_ok(colsum(a@, j as int, a@.rows)));
                assert(!sv_col_sums_fits(a@));
            }
            return Err(HALError::Overflow);
        }
        data.push(acc as i64);
        j += 1;
    }
    let r = Tensor { dims: Dims { rows: cols, cols: 1, time: 1, extra: 1 }, data };
    proof {
        lemma_count_bounds(rows as int, cols as int, a.dims.time as int);
        assert forall|m2: int| 0 <= m2 < r@.data.len() implies #[trigger] r@.data[m2]
            == sv_col_sums(a@).data[m2] && elem_ok(r@.data[m2]) by {
            assert(r@.data[m2] == r.data@[m2] as int);
        }
        assert(r@.data =~= sv_col_sums(a@).data);
        assert(r@ == sv_col_sums(a@));
        assert forall|j2: int| 0 <= j2 < a@.cols implies elem_ok(
            #[trigger] colsum(a@, j2, a@.rows),
        ) by {
            assert(elem_ok(r@.data[j2]));
            assert(r@.data[j2] == sv_col_sums(a@).data[j2]);
        }
        assert(sv_col_sums_fits(a@));
    }
    Ok(r)
}

/// A matrix plus a `[cols, 1]` bias broadcast across its rows.
pub open spec fn sv_add_bias(x: TensorView, b: TensorView) -> TensorView {
    TensorView {
        rows: x.rows,
        cols: x.cols,
        time: 1,
        data: Seq::new(x.data.len(), |n: int| x.data[n] + b.data[n / (x.rows as int)]),
    }
}

/// Whether every broadcast sum stays within bounds.
pub open spec fn sv_add_bias_fits(x: TensorView, b: TensorView) -> bool {
    forall|n: int|
        #![trigger x.data[n]]
        0 <= n < x.data.len() ==> elem_ok(x.data[n] + b.data[n / (x.rows as int)])
}

/// Adds a `[cols, 1]` bias vector to every row of a `[rows, cols]` matrix.
pub fn add_bias(x: &Tensor, bias: &Tensor) -> (r: Result<Tensor, HALError>)
    requires
        x.wf(),
        bias.wf(),
        x@.is_matrix(),
        bias@.is_matrix(),
        bias@.rows == x@.cols,
        bias@.cols == 1,
    ensures
        r is Ok <==> sv_add_bias_fits(x@, bias@),
        r is Ok ==> r->Ok_0.wf() && r->Ok_0@ == sv_add_bias(x@, bias@) && r->Ok_0.dims == x.dims,
        r is Err ==> r->Err_0 == HALError::Overflow,
{
    let rows = x.dims.rows;
    let cols = x.dims.cols;
    let mut data: Vec<i64> = Vec::new();
    let mut j: usize = 0;
    while j < cols
        invariant
            x.wf(),
            bias.wf(),
            x@.is_matrix(),
            bias@.is_matrix(),
            bias@.rows == x@.cols,
            bias@.cols == 1,
            rows == x.dims.rows,
            cols == x.dims.cols,
            j <= cols,
            data@.len() == j * rows,
            forall|m2: int|
                0 <= m2 < data@.len() ==> #[trigger] data@[m2] as int == sv_add_bias(
                    x@,
                    bias@,
                ).data[m2],
            forall|m2: int| 0 <= m2 < data@.len() ==> elem_ok(#[trigger] data@[m2] as int),
        decreases cols - j,
    {
        proof {
            lemma_count_bounds(rows as int, cols as int, x.dims.time as int);
            assert((j + 1) * rows == j * rows + rows) by (nonlinear_arith);
            assert(j * rows + rows <= cols * rows) by (nonlinear_arith)
                requires
                    j + 1 <= cols,
                    rows >= 0,
            ;
            assert(cols * rows == rows * cols) by (nonlinear_arith);
        }
        let mut i: usize = 0;
        while i < rows
            invariant
                x.wf(),
                bias.wf(),
                x@.is_matrix(),
                bias@.is_matrix(),
                bias@.rows == x@.cols,
                bias@.cols == 1,
                rows == x.dims.rows,
                cols == x.dims.cols,
                j < cols,
                i <= rows,
                j * rows + rows <= rows * cols,
                data@.len() == j * rows + i,
                forall|m2: int|
                    0 <= m2 < data@.len() ==> #[trigger] data@[m2] as int == sv_add_bias(
                        x@,
                        bias@,
                    ).data[m2],
                forall|m2: int| 0 <= m2 < data@.len() ==> elem_ok(#[trigger] data@[m2] as int),
            decreases rows - i,
        {
            let xv = x.at(i, j, 0);
            let bv = bias.at(j, 0, 0);
            proof {
                assert(j * rows + i < rows * cols);
                lemma_fundamental_div_mod_converse(
                    (j * rows + i) as int,
                    rows as int,
                    j as int,
                    i as int,
                );
                assert((j as int) * (rows as int) == (rows as int) * (j as int))
                    by (nonlinear_arith);
                assert(x@.data[(j * rows + i) as int] == x@.at2(i as int, j as int));
                assert(bias@.data[j as int] == bias@.at2(j as int, 0));
            }
            let s = xv + bv;
            if s < -ELEM_MAX || s > ELEM_MAX {
                proof {
                    let n0 = (j * rows + i) as int;
                    assert(!elem_ok(x@.data[n0] + bias@.data[n0 / (x@.rows as int)]));
                    assert(!sv_add_bias_fits(x@, bias@));
                }
                return Err(HALError::Overflow);
            }
            data.push(s);
            i += 1;
        }
        j += 1;
    }
    proof {
        assert(cols * rows == rows * cols) by (nonlinear_arith);
        assert(rows * cols * 1 == rows * cols) by (nonlinear_arith);
        lemma_built_tensor(*x, data, sv_add_bias(x@, bias@));
        assert forall|n0: int| #![trigger x@.data[n0]] 0 <= n0 < x@.data.len() implies elem_ok(
            x@.data[n0] + bias@.data[n0 / (x@.rows as int)],
        ) by {
            assert(data@[n0] as int == sv_add_bias(x@, bias@).data[n0]);
            assert(elem_ok(data@[n0] as int));
        }
        assert(sv_add_bias_fits(x@, bias@));
    }
    Ok(Tensor { dims: x.dims, data })
}

/// One time step of a tensor, as a matrix.
pub open spec fn sv_slice(t: TensorView, k: int) -> TensorView {
    TensorView {
        rows: t.rows,
        cols: t.cols,
        time: 1,
        data: Seq::new(t.rows * t.cols, |n: int| t.data[(t.rows * t.cols) * k + n]),
    }
}

/// Slice offsets stay inside the tensor.
proof fn lemma_slice_bounds(rows: int, cols: int, time: int, k: int)
    by (nonlinear_arith)
    requires
        1 <= rows,
        1 <= cols,
        0 <= k < time,
    ensures
        rows * cols * k + rows * cols <= rows * cols * time,
        0 <= rows * cols * k,
{
}


/// Copies one time step out of a tensor, yielding a matrix.
pub fn slice_time(t: &Tensor, k: usize) -> (r: Tensor)
    requires
        t.wf(),
        k < t.dims.time,
    ensures
        r.wf(),
        r@ == sv_slice(t@, k as int),
        r.dims == (Dims { rows: t.dims.rows, cols: t.dims.cols, time: 1, extra: 1 }),
{
    let rows = t.dims.rows;
    let cols = t.dims.cols;
    proof {
        lemma_count_bounds(rows as int, cols as int, t.dims.time as int);
        lemma_slice_bounds(rows as int, cols as int, t.dims.time as int, k as int);
    }
    let step = rows * cols;
    let base = step * k;
    let mut data: Vec<i64> = Vec::new();
    let mut n: usize = 0;
    while n < step
        invariant
            t.wf(),
            rows == t.dims.rows,
            cols == t.dims.cols,
            k < t.dims.time,
            step == rows * cols,
            base == step * k,
            base + step <= t.data@.len(),
            n <= step,
            data@.len() == n,
            forall|m2: int|
                0 <= m2 < n ==> #[trigger] data@[m2] as int == sv_slice(t@, k as int).data[m2],
            forall|m2: int| 0 <= m2 < n ==> elem_ok(#[trigger] data@[m2] as int),
        decreases step - n,
    {
        let x = t.data[base + n];
        proof {
            assert(t@.data[(base + n) as int] == t.data@[(base + n) as int] as int);
            assert(elem_ok(t@.data[(base + n) as int]));
            assert(sv_slice(t@, k as int).data[n as int] == t@.data[(base + n) as int]);
        }
        data.push(x);
        n += 1;
    }
    let r = Tensor { dims: Dims { rows, cols, time: 1, extra: 1 }, data };
    proof {
        assert(rows * cols * 1 == rows * cols) by (nonlinear_arith);
        assert forall|m2: int| 0 <= m2 < r@.data.len() implies #[trigger] r@.data[m2] == sv_slice(
            t@,
            k as int,
        ).data[m2] && elem_ok(r@.data[m2]) by {
            assert(r@.data[m2] == r.data@[m2] as int);
        }
        assert(r@.data =~= sv_slice(t@, k as int).data);
        assert(r@ == sv_slice(t@, k as int));
    }
    r
}

/// A view scaled by the rational `num / den`, each element truncated toward
/// zero.
pub open spec fn sv_scale(t: TensorView, num: int, den: int) -> TensorView {
    TensorView {
        rows: t.rows,
        cols: t.cols,
        time: t.time,
        data: Seq::new(t.data.len(), |n: int| tdiv(num * t.data[n], den)),
    }
}

/// Whether every scaled element stays within bounds.
pub open spec fn sv_scale_fits(t: TensorView, num: int, den: int) -> bool {
    forall|n: int|
        #![trigger t.data[n]]
        0 <= n < t.data.len() ==> elem_ok(tdiv(num * t.data[n], den))
}

/// A scale numerator within 95 bits times an element fits 126 bits.
proof fn lemma_scale_product(num: int, x: int)
    by (nonlinear_arith)
    requires
        -0x0800_0000_0000_0000_0000_0000 <= num <= 0x0800_0000_0000_0000_0000_0000,
        elem_ok(x),
    ensures
        -0x4000_0000_0000_0000_0000_0000_0000_0000 <= num * x
            <= 0x4000_0000_0000_0000_0000_0000_0000_0000,
{
}

/// Scales every element by `num / den`, truncating toward zero. Exact in the
/// sense that the quotient itself is computed exactly before truncation.
pub fn scale_tdiv(t: &Tensor, num: i128, den: i128) -> (r: Result<Tensor, HALError>)
    requires
        t.wf(),
        den >= 1,
        -0x0800_0000_0000_0000_0000_0000 <= num <= 0x0800_0000_0000_0000_0000_0000,
    ensures
        r is Ok <==> sv_scale_fits(t@, num as int, den as int),
        r is Ok ==> r->Ok_0.wf() && r->Ok_0@ == sv_scale(t@, num as int, den as int)
            && r->Ok_0.dims == t.dims,
        r is Err ==> r->Err_0 == HALError::Overflow,
{
    let len = t.data.len();
    let mut data: Vec<i64> = Vec::new();
    let mut n: usize = 0;
    while n < len
        invariant
            t.wf(),
            den >= 1,
            -0x0800_0000_0000_0000_0000_0000 <= num <= 0x0800_0000_0000_0000_0000_0000,
            len == t.data@.len(),
            n <= len,
            data@.len() == n,
            forall|m2: int|
                0 <= m2 < n ==> #[trigger] data@[m2] as int == tdiv(
                    num as int * t@.data[m2],
                    den as int,
                ),
            forall|m2: int| 0 <= m2 < n ==> elem_ok(#[trigger] data@[m2] as int),
        decreases len - n,
    {
        proof {
            assert(t@.data[n as int] == t.data@[n as int] as int);
            assert(elem_ok(t@.data[n as int]));
            lemma_scale_product(num as int, t@.data[n as int]);
        }
        let x = t.data[n];
        let p = num * (x as i128);
        let q = tdiv_i128(p, den);
        if q < -(ELEM_MAX as i128) || q > ELEM_MAX as i128 {
            proof {
                assert(!elem_ok(tdiv(num as int * t@.data[n as int], den as int)));
                assert(!sv_scale_fits(t@, num as int, den as int));
            }
            return Err(HALError::Overflow);
        }
        data.push(q as i64);
        n += 1;
    }
    proof {
        lemma_built_tensor(*t, data, sv_scale(t@, num as int, den as int));
        assert forall|m2: int| #![trigger t@.data[m2]] 0 <= m2 < t@.data.len() implies elem_ok(
            tdiv(num as int * t@.data[m2], den as int),
        ) by {
            assert(data@[m2] as int == sv_scale(t@, num as int, den as int).data[m2]);
            assert(elem_ok(data@[m2] as int));
        }
        assert(sv_scale_fits(t@, num as int, den as int));
    }
    Ok(Tensor { dims: t.dims, data })
}

/// Accumulation is linear: folding `g1` and then `g2` into a tensor lands on
/// the same values as folding their sum in once.
pub proof fn lemma_accumulate_linear(d: TensorView, g1: TensorView, g2: TensorView)
    requires
        d.data.len() == g1.data.len(),
        d.data.len() == g2.data.len(),
    ensures
        sv_add(sv_add(d, g1), g2) == sv_add(d, sv_add(g1, g2)),
{
    assert(sv_add(sv_add(d, g1), g2).data =~= sv_add(d, sv_add(g1, g2)).data);
    assert(sv_add(sv_add(d, g1), g2) =~~= sv_add(d, sv_add(g1, g2)));
}

/// Adding an all-zero tensor of the same extent changes nothing.
pub proof fn lemma_add_zero(d: TensorView)
    requires
        d.data.len() == d.rows * d.cols * d.time,
    ensures
        sv_add(d, sv_const(d.rows, d.cols, d.time, 0)) == d,
{
    assert(sv_add(d, sv_const(d.rows, d.cols, d.time, 0)).data =~= d.data);
    assert(sv_add(d, sv_const(d.rows, d.cols, d.time, 0)) =~~= d);
}

/// An all-zero tensor absorbs elementwise multiplication.
pub proof fn lemma_mul_zero(rows: nat, cols: nat, time: nat, x: TensorView)
    ensures
        sv_mul(sv_const(rows, cols, time, 0), x) == sv_const(rows, cols, time, 0),
{
    assert(sv_mul(sv_const(rows, cols, time, 0), x).data =~= sv_const(
        rows,
        cols,
        time,
        0,
    ).data);
    assert(sv_mul(sv_const(rows, cols, time, 0), x) =~~= sv_const(rows, cols, time, 0));
}

/// A dot product against an all-zero left matrix vanishes.
pub proof fn lemma_dot_zero_left(rows: nat, cols: nat, b: TensorView, i: int, j: int, k: nat)
    requires
        0 <= i < rows,
        k <= cols,
    ensures
        dot(sv_const(rows, cols, 1, 0), b, i, j, k) == 0,
    decreases k,
{
    if k > 0 {
        lemma_dot_zero_left(rows, cols, b, i, j, (k - 1) as nat);
        lemma_flat_index_bounds(rows as int, cols as int, 1, i, k - 1, 0);
        assert(sv_const(rows, cols, 1, 0).at2(i, k - 1) == 0);
    }
}

/// A dot product against an all-zero right matrix vanishes.
pub proof fn lemma_dot_zero_right(a: TensorView, n: nat, i: int, j: int, k: nat)
    requires
        0 <= j < n,
        k <= a.cols,
        a.cols >= 1,
    ensures
        dot(a, sv_const(a.cols, n, 1, 0), i, j, k) == 0,
    decreases k,
{
    if k > 0 {
        lemma_dot_zero_right(a, n, i, j, (k - 1) as nat);
        lemma_flat_index_bounds(a.cols as int, n as int, 1, k - 1, j, 0);
        assert(sv_const(a.cols, n, 1, 0).at2(k - 1, j) == 0);
    }
}

/// An all-zero left operand makes the whole matrix product zero.
pub proof fn lemma_matmul_zero_left(rows: nat, cols: nat, b: TensorView)
    requires
        rows >= 1,
        cols >= 1,
    ensures
        sv_matmul(sv_const(rows, cols, 1, 0), b) == sv_const(rows, b.cols, 1, 0),
{
    let z = sv_const(rows, cols, 1, 0);
    assert forall|n: int| 0 <= n < sv_matmul(z, b).data.len() implies #[trigger] sv_matmul(
        z,
        b,
    ).data[n] == 0 by {
        vstd::arithmetic::div_mod::lemma_fundamental_div_mod(n, rows as int);
        vstd::arithmetic::div_mod::lemma_mod_division_less_than_divisor(n, rows as int);
        vstd::arithmetic::div_mod::lemma_div_pos_is_pos(n, rows as int);
        lemma_dot_zero_left(rows, cols, b, n % (rows as int), n / (rows as int), cols);
    }
    assert(sv_matmul(z, b).data =~= sv_const(rows, b.cols, 1, 0).data);
    assert(sv_matmul(z, b) =~~= sv_const(rows, b.cols, 1, 0));
}

/// An all-zero right operand makes the whole matrix product zero.
pub proof fn lemma_matmul_zero_right(a: TensorView, n: nat)
    requires
        a.rows >= 1,
        a.cols >= 1,
        n >= 1,
    ensures
        sv_matmul(a, sv_const(a.cols, n, 1, 0)) == sv_const(a.rows, n, 1, 0),
{
    let z = sv_const(a.cols, n, 1, 0);
    assert forall|m: int| 0 <= m < sv_matmul(a, z).data.len() implies #[trigger] sv_matmul(
        a,
        z,
    ).data[m] == 0 by {
        vstd::arithmetic::div_mod::lemma_fundamental_div_mod(m, a.rows as int);
        vstd::arithmetic::div_mod::lemma_mod_division_less_than_divisor(m, a.rows as int);
        vstd::arithmetic::div_mod::lemma_div_pos_is_pos(m, a.rows as int);
        assert(m < a.rows * n);
        assert(m / (a.rows as int) < n) by (nonlinear_arith)
            requires
                m < a.rows * n,
                a.rows >= 1,
                m >= 0,
                m / (a.rows as int) * (a.rows as int) + m % (a.rows as int) == m,
                0 <= m % (a.rows as int) < a.rows,
        ;
        lemma_dot_zero_right(a, n, m % (a.rows as int), m / (a.rows as int), a.cols);
    }
    assert(sv_matmul(a, z).data =~= sv_const(a.rows, n, 1, 0).data);
    assert(sv_matmul(a, z) =~~= sv_const(a.rows, n, 1, 0));
}

/// A column sum of an all-zero matrix vanishes.
pub proof fn lemma_colsum_zero(rows: nat, cols: nat, j: int, k: nat)
    requires
        0 <= j < cols,
        k <= rows,
    ensures
        colsum(sv_const(rows, cols, 1, 0), j, k) == 0,
    decreases k,
{
    if k > 0 {
        lemma_colsum_zero(rows, cols, j, (k - 1) as nat);
        lemma_flat_index_bounds(rows as int, cols as int, 1, k - 1, j, 0);
        assert(sv_const(rows, cols, 1, 0).at2(k - 1, j) == 0);
    }
}

/// The column sums of an all-zero matrix are the zero column vector.
pub proof fn lemma_col_sums_zero(rows: nat, cols: nat)
    requires
        rows >= 1,
        cols >= 1,
    ensures
        sv_col_sums(sv_const(rows, cols, 1, 0)) == sv_const(cols, 1, 1, 0),
{
    let z = sv_const(rows, cols, 1, 0);
    assert forall|j: int| 0 <= j < cols implies #[trigger] sv_col_sums(z).data[j] == 0 by {
        lemma_colsum_zero(rows, cols, j, rows);
    }
    assert(sv_col_sums(z).data =~= sv_const(cols, 1, 1, 0).data);
    assert(sv_col_sums(z) =~~= sv_const(cols, 1, 1, 0));
}

/// Sum of the first `k` elements of a view in flat order.
pub open spec fn sv_total(t: TensorView, k: nat) -> int
    decreases k,
{
    if k == 0 {
        0
    } else {
        sv_total(t, (k - 1) as nat) + t.data[k - 1]
    }
}


/// The exact sum of all elements. Total: the sum of at most `COUNT_MAX`
/// bounded elements always fits an `i64`.
pub fn total_sum(t: &Tensor) -> (s: i64)
    requires
        t.wf(),
    ensures
        s as int == sv_total(t@, t@.data.len()),
{
    let len = t.data.len();
    let mut acc: i64 = 0;
    let mut n: usize = 0;
    while n < len
        invariant
            t.wf(),
            len == t.data@.len(),
            n <= len,
            acc == sv_total(t@, n as nat),
            -((n as int) * 0x8000_0000) <= acc <= (n as int) * 0x8000_0000,
        decreases len - n,
    {
        proof {
            assert(t@.data[n as int] == t.data@[n as int] as int);
            assert(elem_ok(t@.data[n as int]));
            assert(len <= COUNT_MAX);
        }
        acc = acc + t.data[n];
        n += 1;
    }
    acc
}

} // verus!
