use vstd::prelude::*;

use crate::error::HALError;
use crate::params::flat_count;
use crate::params::flat_get;
use crate::params::flat_get_from;
use crate::params::flat_grad;
use crate::params::flat_grad_from;
use crate::params::lemma_flat_count_nonneg;
use crate::params::lemma_flat_set_effect_from;
use crate::params::lemma_zero_store_flat;
use crate::params::zero_store;
use crate::params::BundleView;
use crate::params::ParamManager;
use crate::ratio::lemma_tdiv_cancel;
use crate::ratio::lemma_tdiv_zero;
use crate::ratio::tdiv;
use crate::ratio::Ratio;
use crate::tensor;
use crate::tensor::sv_add;
use crate::tensor::sv_add_fits;
use crate::tensor::sv_const;
use crate::tensor::sv_scale;
use crate::tensor::sv_scale_fits;
use crate::tensor::sv_sub;
use crate::tensor::sv_sub_fits;
use crate::tensor::Dims;
use crate::tensor::Tensor;
use crate::tensor::TensorView;
use crate::tensor::DIM_MAX;
use vstd::pervasive::unreached;

verus! {

/// Largest magnitude a hyperparameter numerator or denominator may take.
pub const RAT_MAX: i64 = 0x7fff_ffff;

/// Largest number of optimizer steps: the decayed learning rate stays
/// exactly computable below this count.
pub const ITER_CAP: u64 = 0x1_0000_0000;

/// Whether a rational is usable as a hyperparameter.
pub open spec fn hyper_ok(r: Ratio) -> bool {
    1 <= r.den <= RAT_MAX && -RAT_MAX <= r.num <= RAT_MAX
}

/// Numerator of the decayed per-sample learning rate
/// `learningRate / ((1 + decay·t) · batchSize)`.
pub open spec fn alpha_num(lr: Ratio, dec: Ratio) -> int {
    lr.num * dec.den
}

/// Denominator of the decayed per-sample learning rate.
pub open spec fn alpha_den(lr: Ratio, dec: Ratio, t: int, batch: int) -> int {
    lr.den * (dec.den + dec.num * t) * batch
}

/// One velocity step: `momentum·velocity + alpha·gradient`, each product
/// truncated toward zero.
pub open spec fn new_velocity(
    v: TensorView,
    g: TensorView,
    mom: Ratio,
    anum: int,
    aden: int,
) -> TensorView {
    sv_add(sv_scale(v, mom.num as int, mom.den as int), sv_scale(g, anum, aden))
}

/// Whether one velocity step stays within element bounds.
pub open spec fn velocity_fits(
    v: TensorView,
    g: TensorView,
    mom: Ratio,
    anum: int,
    aden: int,
) -> bool {
    &&& sv_scale_fits(v, mom.num as int, mom.den as int)
    &&& sv_scale_fits(g, anum, aden)
    &&& sv_add_fits(sv_scale(v, mom.num as int, mom.den as int), sv_scale(g, anum, aden))
}

/// Whether a whole optimizer step succeeds: the step count below its cap,
/// one velocity per flattened parameter, every velocity shaped like its
/// parameter, and every exact intermediate within element bounds.
pub open spec fn update_ok(
    store: Seq<BundleView>,
    vel: Seq<TensorView>,
    lr: Ratio,
    mom: Ratio,
    dec: Ratio,
    t: int,
    batch: int,
) -> bool {
    let anum = alpha_num(lr, dec);
    let aden = alpha_den(lr, dec, t, batch);
    &&& t <= ITER_CAP
    &&& vel.len() == flat_count(store)
    &&& forall|i: int| 0 <= i < vel.len() ==> (#[trigger] vel[i]).same_shape(flat_get(store, i))
    &&& forall|i: int|
        0 <= i < vel.len() ==> velocity_fits(#[trigger] vel[i], flat_grad(store, i), mom, anum, aden)
    &&& forall|i: int|
        0 <= i < vel.len() ==> sv_sub_fits(
            flat_get(store, i),
            new_velocity(#[trigger] vel[i], flat_grad(store, i), mom, anum, aden),
        )
}

/// With momentum and decay both zero, one SGD step reduces exactly to
/// `parameter -= (learningRate / batchSize) · gradient`, in the engine's
/// truncating arithmetic.
pub proof fn lemma_sgd_plain(
    p: TensorView,
    v: TensorView,
    g: TensorView,
    lr: Ratio,
    mom: Ratio,
    dec: Ratio,
    t: int,
    batch: int,
)
    requires
        mom.num == 0,
        mom.den >= 1,
        dec.num == 0,
        dec.den >= 1,
        lr.den >= 1,
        batch >= 1,
        v.rows == g.rows,
        v.cols == g.cols,
        v.time == g.time,
        v.data.len() == g.data.len(),
    ensures
        new_velocity(v, g, mom, alpha_num(lr, dec), alpha_den(lr, dec, t, batch)) == sv_scale(
            g,
            lr.num as int,
            lr.den * batch,
        ),
        sv_sub(p, new_velocity(v, g, mom, alpha_num(lr, dec), alpha_den(lr, dec, t, batch)))
            == sv_sub(p, sv_scale(g, lr.num as int, lr.den * batch)),
{
    let anum = alpha_num(lr, dec);
    let aden = alpha_den(lr, dec, t, batch);
    assert(dec.num * t == 0) by (nonlinear_arith)
        requires
            dec.num == 0,
    ;
    assert(aden == lr.den * dec.den * batch);
    let zv = sv_scale(v, 0, mom.den as int);
    assert forall|n: int| 0 <= n < v.data.len() implies #[trigger] zv.data[n] == 0 by {
        assert(0 * v.data[n] == 0) by (nonlinear_arith);
        lemma_tdiv_zero(mom.den as int);
    }
    let plain = sv_scale(g, lr.num as int, lr.den * batch);
    assert forall|n: int| 0 <= n < g.data.len() implies #[trigger] sv_scale(g, anum, aden).data[n]
        == plain.data[n] by {
        let x = g.data[n];
        assert(anum * x == dec.den * (lr.num * x)) by (nonlinear_arith)
            requires
                anum == lr.num * dec.den,
        ;
        assert(aden == dec.den * (lr.den * batch)) by (nonlinear_arith)
            requires
                aden == lr.den * dec.den * batch,
        ;
        assert(lr.den * batch >= 1) by (nonlinear_arith)
            requires
                lr.den >= 1,
                batch >= 1,
        ;
        lemma_tdiv_cancel(dec.den as int, lr.num * x, lr.den * batch);
        assert(tdiv(anum * x, aden) == tdiv(lr.num * x, lr.den * batch));
    }
    assert(sv_scale(g, anum, aden) =~~= plain);
    let nv = new_velocity(v, g, mom, anum, aden);
    assert forall|n: int| 0 <= n < nv.data.len() implies #[trigger] nv.data[n] == plain.data[n] by {
        assert(zv.data[n] == 0);
    }
    assert(nv.data =~= plain.data);
    assert(nv =~~= plain);
}

/// Stochastic gradient descent with momentum and decay: per-parameter
/// velocity state, sized lazily from the store's shapes, and an exact
/// rational learning-rate schedule `lr / (1 + decay·t)`.
#[derive(Debug)]
pub struct SGD {
    velocity: Vec<Tensor>,
    iter: u64,
    learning_rate: Ratio,
    momentum: Ratio,
    decay: Ratio,
}

impl Default for SGD {
    /// An SGD optimizer with a learning rate of `1/1000`, no momentum, and
    /// no decay.
    fn default() -> (r: SGD)
        ensures
            r.wf(),
            r.vel().len() == 0,
            r.iterations_spec() == 0,
            r.lr() == (Ratio { num: 1, den: 1000 }),
            r.mom() == (Ratio { num: 0, den: 1 }),
            r.dec() == (Ratio { num: 0, den: 1 }),
    {
        SGD {
            velocity: Vec::new(),
            iter: 0,
            learning_rate: Ratio { num: 1, den: 1000 },
            momentum: Ratio { num: 0, den: 1 },
            decay: Ratio { num: 0, den: 1 },
        }
    }
}

impl SGD {
    /// The velocity tensors, one per flattened parameter once allocated.
    pub closed spec fn vel(self) -> Seq<TensorView> {
        self.velocity@.map_values(|t: Tensor| t@)
    }

    /// Number of optimizer steps taken so far.
    pub closed spec fn iterations_spec(self) -> u64 {
        self.iter
    }

    pub closed spec fn lr(self) -> Ratio {
        self.learning_rate
    }

    pub closed spec fn mom(self) -> Ratio {
        self.momentum
    }

    pub closed spec fn dec(self) -> Ratio {
        self.decay
    }

    /// The optimizer invariant: hyperparameters in range, decay nonnegative,
    /// velocities well formed.
    pub closed spec fn wf(self) -> bool {
        &&& hyper_ok(self.learning_rate)
        &&& hyper_ok(self.momentum)
        &&& hyper_ok(self.decay)
        &&& self.decay.num >= 0
        &&& forall|i: int| 0 <= i < self.vel().len() ==> (#[trigger] self.vel()[i]).wf()
    }

    /// A fresh optimizer with the given hyperparameters and no velocity
    /// state.
    pub fn new(learning_rate: Ratio, momentum: Ratio, decay: Ratio) -> (r: SGD)
        requires
            hyper_ok(learning_rate),
            hyper_ok(momentum),
            hyper_ok(decay),
            decay.num >= 0,
        ensures
            r.wf(),
            r.vel().len() == 0,
            r.iterations_spec() == 0,
            r.lr() == learning_rate,
            r.mom() == momentum,
            r.dec() == decay,
    {
        SGD { velocity: Vec::new(), iter: 0, learning_rate, momentum, decay }
    }

    /// Number of optimizer steps taken so far.
    pub fn iterations(&self) -> (n: u64)
        ensures
            n == self.iterations_spec(),
    {
        self.iter
    }

    /// Allocates one zero velocity tensor per flattened parameter shape, on
    /// the first call only: calling again leaves the velocities as they are,
    /// whether or not the model's topology still matches them.
    pub fn setup(&mut self, dims: Vec<Dims>)
        requires
            old(self).wf(),
            forall|i: int| 0 <= i < dims@.len() ==> (#[trigger] dims@[i]).wf(),
        ensures
            final(self).wf(),
            final(self).iterations_spec() == old(self).iterations_spec(),
            final(self).lr() == old(self).lr(),
            final(self).mom() == old(self).mom(),
            final(self).dec() == old(self).dec(),
            old(self).vel().len() > 0 ==> final(self).vel() == old(self).vel(),
            old(self).vel().len() == 0 ==> {
                &&& final(self).vel().len() == dims@.len()
                &&& forall|i: int|
                    0 <= i < dims@.len() ==> final(self).vel()[i] == sv_const(
                        (#[trigger] dims@[i]).rows as nat,
                        dims@[i].cols as nat,
                        dims@[i].time as nat,
                        0,
                    )
            },
    {
        if self.velocity.len() == 0 {
            let n = dims.len();
            let mut vels: Vec<Tensor> = Vec::new();
            let mut i: usize = 0;
            while i < n
                invariant
                    n == dims@.len(),
                    i <= n,
                    forall|k: int| 0 <= k < n ==> (#[trigger] dims@[k]).wf(),
                    vels@.len() == i,
                    forall|k: int|
                        0 <= k < i ==> (#[trigger] vels@[k]).wf() && vels@[k]@ == sv_const(
                            dims@[k].rows as nat,
                            dims@[k].cols as nat,
                            dims@[k].time as nat,
                            0,
                        ),
                decreases n - i,
            {
                vels.push(tensor::fill(dims[i], 0));
                i += 1;
            }
            self.velocity = vels;
        }
    }

    /// One optimizer step over the flattened parameters, in lock step with
    /// the accumulated gradients and the velocity state: steps the counter,
    /// computes the decayed per-sample rate `lr / ((1 + decay·t)·batch)`,
    /// folds each gradient into its velocity under momentum, subtracts each
    /// velocity from its parameter, and finally zeroes every gradient. On
    /// any failure — a velocity out of line with the store, or an exact
    /// intermediate out of bounds — neither the store nor the optimizer is
    /// changed.
    pub fn update(&mut self, parameter_manager: &mut ParamManager, batch_size: u64) -> (r: Result<
        (),
        HALError,
    >)
        requires
            old(self).wf(),
            old(parameter_manager).wf(),
            1 <= batch_size <= DIM_MAX as u64,
        ensures
            final(self).wf(),
            final(parameter_manager).wf(),
            r is Ok <==> update_ok(
                old(parameter_manager)@,
                old(self).vel(),
                old(self).lr(),
                old(self).mom(),
                old(self).dec(),
                old(self).iterations_spec() as int + 1,
                batch_size as int,
            ),
            r is Err ==> final(parameter_manager)@ == old(parameter_manager)@ && final(self).vel()
                == old(self).vel() && final(self).iterations_spec() == old(
                self,
            ).iterations_spec(),
            r is Err ==> r->Err_0 == HALError::Overflow || r->Err_0 == HALError::ShapeMismatch,
            final(self).lr() == old(self).lr(),
            final(self).mom() == old(self).mom(),
            final(self).dec() == old(self).dec(),
            r is Ok ==> ({
                let t = old(self).iterations_spec() as int + 1;
                let anum = alpha_num(old(self).lr(), old(self).dec());
                let aden = alpha_den(old(self).lr(), old(self).dec(), t, batch_size as int);
                let store0 = old(parameter_manager)@;
                let vel0 = old(self).vel();
                &&& final(self).iterations_spec() == t
                &&& final(self).vel().len() == vel0.len()
                &&& (forall|k: int|
                    0 <= k < vel0.len() ==> final(self).vel()[k] == new_velocity(
                        #[trigger] vel0[k],
                        flat_grad(store0, k),
                        old(self).mom(),
                        anum,
                        aden,
                    ))
                &&& flat_count(final(parameter_manager)@) == flat_count(store0)
                &&& (forall|k: int|
                    0 <= k < vel0.len() ==> flat_get(final(parameter_manager)@, k) == sv_sub(
                        flat_get(store0, k),
                        new_velocity(#[trigger] vel0[k], flat_grad(store0, k), old(self).mom(), anum, aden),
                    ))
                &&& (forall|k: int|
                    0 <= k < vel0.len() ==> ({
                        let g = #[trigger] flat_grad(store0, k);
                        flat_grad(final(parameter_manager)@, k) == sv_const(
                            g.rows,
                            g.cols,
                            g.time,
                            0,
                        )
                    }))
                &&& final(parameter_manager)@.len() == store0.len()
                &&& (forall|l: int|
                    0 <= l < store0.len() ==> {
                        let b1 = store0[l];
                        let b2 = #[trigger] final(parameter_manager)@[l];
                        b2.activations == b1.activations && b2.inputs == b1.inputs && b2.outputs
                            == b1.outputs && b2.cur == b1.cur && b2.weights.len()
                            == b1.weights.len() && b2.biases.len() == b1.biases.len()
                            && b2.deltas.len() == b1.deltas.len()
                    })
                &&& (forall|l: int, w: int|
                    0 <= l < store0.len() && 0 <= w < store0[l].weights.len() ==> (
                    #[trigger] final(parameter_manager)@[l].weights[w]).same_shape(
                        store0[l].weights[w],
                    ))
                &&& (forall|l: int, w: int|
                    0 <= l < store0.len() && 0 <= w < store0[l].biases.len() ==> (
                    #[trigger] final(parameter_manager)@[l].biases[w]).same_shape(
                        store0[l].biases[w],
                    ))
            }),
    {
        if self.iter >= ITER_CAP {
            return Err(HALError::Overflow);
        }
        let t = self.iter + 1;
        proof {
            lemma_alpha_bounds(
                self.learning_rate,
                self.decay,
                t as int,
                batch_size as int,
            );
        }
        let anum: i128 = (self.learning_rate.num as i128) * (self.decay.den as i128);
        let aden: i128 = (self.learning_rate.den as i128) * ((self.decay.den as i128)
            + (self.decay.num as i128) * (t as i128)) * (batch_size as i128);
        let ghost ganum = alpha_num(self.learning_rate, self.decay);
        let ghost gaden = alpha_den(self.learning_rate, self.decay, t as int, batch_size as int);
        let total = parameter_manager.flattened_parameter_count();
        if self.velocity.len() != total {
            return Err(HALError::ShapeMismatch);
        }
        let mut new_vels: Vec<Tensor> = Vec::new();
        let mut new_params: Vec<Tensor> = Vec::new();
        let mut i: usize = 0;
        while i < total
            invariant
                old(self).wf(),
                old(parameter_manager).wf(),
                self.wf(),
                *self == *old(self),
                parameter_manager@ == old(parameter_manager)@,
                parameter_manager.wf(),
                1 <= batch_size <= DIM_MAX as u64,
                t == old(self).iterations_spec() + 1,
                t <= ITER_CAP,
                anum as int == ganum,
                aden as int == gaden,
                ganum == alpha_num(old(self).lr(), old(self).dec()),
                gaden == alpha_den(old(self).lr(), old(self).dec(), t as int, batch_size as int),
                -0x0800_0000_0000_0000_0000_0000 <= anum <= 0x0800_0000_0000_0000_0000_0000,
                aden >= 1,
                total == flat_count(old(parameter_manager)@),
                self.vel().len() == total,
                i <= total,
                new_vels@.len() == i,
                new_params@.len() == i,
                forall|k: int|
                    0 <= k < i ==> (#[trigger] old(self).vel()[k]).same_shape(
                        flat_get(old(parameter_manager)@, k),
                    ),
                forall|k: int|
                    0 <= k < i ==> velocity_fits(
                        #[trigger] old(self).vel()[k],
                        flat_grad(old(parameter_manager)@, k),
                        old(self).mom(),
                        ganum,
                        gaden,
                    ),
                forall|k: int|
                    0 <= k < i ==> sv_sub_fits(
                        flat_get(old(parameter_manager)@, k),
                        new_velocity(
                            #[trigger] old(self).vel()[k],
                            flat_grad(old(parameter_manager)@, k),
                            old(self).mom(),
                            ganum,
                            gaden,
                        ),
                    ),
                forall|k: int|
                    0 <= k < i ==> (#[trigger] new_vels@[k]).wf() && new_vels@[k]@ == new_velocity(
                        old(self).vel()[k],
                        flat_grad(old(parameter_manager)@, k),
                        old(self).mom(),
                        ganum,
                        gaden,
                    ),
                forall|k: int|
                    0 <= k < i ==> (#[trigger] new_params@[k]).wf() && new_params@[k]@ == sv_sub(
                        flat_get(old(parameter_manager)@, k),
                        new_velocity(
                            old(self).vel()[k],
                            flat_grad(old(parameter_manager)@, k),
                            old(self).mom(),
                            ganum,
                            gaden,
                        ),
                    ) && new_params@[k]@.same_shape(flat_get(old(parameter_manager)@, k)),
            decreases total - i,
        {
            let arr = match parameter_manager.get_array_from_index(i) {
                Ok(a) => a,
                Err(_) => unreached(),
            };
            let grad = match parameter_manager.get_gradient_from_index(i) {
                Ok(g) => g,
                Err(_) => unreached(),
            };
            proof {
                crate::params::lemma_flat_grad_shape(parameter_manager@, 0, i as int);
                assert(self.vel()[i as int] == self.velocity@[i as int]@);
                assert(self.vel()[i as int].wf());
            }
            let v = &self.velocity[i];
            if !(v.dims.rows == arr.dims.rows && v.dims.cols == arr.dims.cols && v.dims.time
                == arr.dims.time) {
                proof {
                    assert(!old(self).vel()[i as int].same_shape(
                        flat_get(old(parameter_manager)@, i as int),
                    ));
                }
                return Err(HALError::ShapeMismatch);
            }
            let v1 = match tensor::scale_tdiv(
                v,
                self.momentum.num as i128,
                self.momentum.den as i128,
            ) {
                Ok(x) => x,
                Err(e) => {
                    proof {
                        assert(!velocity_fits(
                            old(self).vel()[i as int],
                            flat_grad(old(parameter_manager)@, i as int),
                            old(self).mom(),
                            ganum,
                            gaden,
                        ));
                    }
                    return Err(e);
                },
            };
            let v2 = match tensor::scale_tdiv(&grad, anum, aden) {
                Ok(x) => x,
                Err(e) => {
                    proof {
                        assert(!velocity_fits(
                            old(self).vel()[i as int],
                            flat_grad(old(parameter_manager)@, i as int),
                            old(self).mom(),
                            ganum,
                            gaden,
                        ));
                    }
                    return Err(e);
                },
            };
            let nv = match tensor::add(&v1, &v2) {
                Ok(x) => x,
                Err(e) => {
                    proof {
                        assert(!velocity_fits(
                            old(self).vel()[i as int],
                            flat_grad(old(parameter_manager)@, i as int),
                            old(self).mom(),
                            ganum,
                            gaden,
                        ));
                    }
                    return Err(e);
                },
            };
            let np = match tensor::sub(&arr, &nv) {
                Ok(x) => x,
                Err(e) => {
                    proof {
                        assert(!sv_sub_fits(
                            flat_get(old(parameter_manager)@, i as int),
                            new_velocity(
                                old(self).vel()[i as int],
                                flat_grad(old(parameter_manager)@, i as int),
                                old(self).mom(),
                                ganum,
                                gaden,
                            ),
                        ));
                    }
                    return Err(e);
                },
            };
            new_vels.push(nv);
            new_params.push(np);
            i += 1;
        }
        let ghost vel0 = old(self).vel();
        let ghost store0 = old(parameter_manager)@;
        let mut i: usize = 0;
        while i < total
            invariant
                old(self).wf(),
                old(parameter_manager).wf(),
                store0 == old(parameter_manager)@,
                vel0 == old(self).vel(),
                self.wf(),
                parameter_manager.wf(),
                total == flat_count(store0),
                flat_count(parameter_manager@) == total,
                parameter_manager@.len() == store0.len(),
                i <= total,
                new_vels@.len() == total,
                new_params@.len() == total,
                self.iterations_spec() == old(self).iterations_spec(),
                self.lr() == old(self).lr(),
                self.mom() == old(self).mom(),
                self.dec() == old(self).dec(),
                self.vel().len() == total,
                forall|k: int|
                    0 <= k < total ==> (#[trigger] new_vels@[k]).wf() && new_vels@[k]@
                        == new_velocity(
                        vel0[k],
                        flat_grad(store0, k),
                        old(self).mom(),
                        ganum,
                        gaden,
                    ),
                forall|k: int|
                    0 <= k < total ==> (#[trigger] new_params@[k]).wf() && new_params@[k]@
                        == sv_sub(
                        flat_get(store0, k),
                        new_velocity(
                            vel0[k],
                            flat_grad(store0, k),
                            old(self).mom(),
                            ganum,
                            gaden,
                        ),
                    ) && new_params@[k]@.same_shape(flat_get(store0, k)),
                forall|k: int| 0 <= k < i ==> self.vel()[k] == new_vels@[k]@,
                forall|k: int| i <= k < total ==> self.vel()[k] == #[trigger] vel0[k],
                forall|p: int|
                    i <= p < total ==> flat_get(parameter_manager@, p) == #[trigger] flat_get(
                        store0,
                        p,
                    ),
                forall|p: int|
                    0 <= p < i ==> flat_get(parameter_manager@, p) == (#[trigger] new_params@[p])@,
                forall|p: int|
                    0 <= p < total ==> flat_grad(parameter_manager@, p) == #[trigger] flat_grad(
                        store0,
                        p,
                    ),
                forall|l: int|
                    0 <= l < store0.len() ==> {
                        let b1 = store0[l];
                        let b2 = #[trigger] parameter_manager@[l];
                        b2.deltas == b1.deltas && b2.activations == b1.activations && b2.inputs
                            == b1.inputs && b2.outputs == b1.outputs && b2.cur == b1.cur
                            && b2.weights.len() == b1.weights.len() && b2.biases.len()
                            == b1.biases.len()
                    },
                forall|l: int, w: int|
                    0 <= l < store0.len() && 0 <= w < store0[l].weights.len() ==> (
                    #[trigger] parameter_manager@[l].weights[w]).same_shape(
                        store0[l].weights[w],
                    ),
                forall|l: int, w: int|
                    0 <= l < store0.len() && 0 <= w < store0[l].biases.len() ==> (
                    #[trigger] parameter_manager@[l].biases[w]).same_shape(
                        store0[l].biases[w],
                    ),
            decreases total - i,
        {
            let np = new_params[i].duplicate();
            let ghost pm_pre = parameter_manager@;
            let res = parameter_manager.set_array_from_index(np, i);
            proof {
                assert(np@.same_shape(flat_get(pm_pre, i as int)));
                assert(res is Ok);
                lemma_flat_set_effect_from(pm_pre, 0, i as int, np@);
                crate::params::lemma_flat_set_wf(pm_pre, 0, i as int, np@);
                assert forall|l: int, w: int|
                    0 <= l < store0.len() && 0 <= w < store0[l].weights.len() implies (
                #[trigger] parameter_manager@[l].weights[w]).same_shape(
                    store0[l].weights[w],
                ) by {
                    assert(parameter_manager@[l].weights[w].same_shape(pm_pre[l].weights[w]));
                }
                assert forall|l: int, w: int|
                    0 <= l < store0.len() && 0 <= w < store0[l].biases.len() implies (
                #[trigger] parameter_manager@[l].biases[w]).same_shape(
                    store0[l].biases[w],
                ) by {
                    assert(parameter_manager@[l].biases[w].same_shape(pm_pre[l].biases[w]));
                }
                assert(flat_count(parameter_manager@) == flat_count(pm_pre));
                assert forall|p: int| 0 <= p < i + 1 implies flat_get(parameter_manager@, p) == (
                #[trigger] new_params@[p])@ by {
                    if p == i as int {
                        assert(flat_get(parameter_manager@, p) == np@);
                    } else {
                        assert(flat_get(parameter_manager@, p) == flat_get(pm_pre, p));
                    }
                }
                assert forall|p: int| i + 1 <= p < total implies flat_get(parameter_manager@, p)
                    == #[trigger] flat_get(store0, p) by {
                    assert(flat_get(parameter_manager@, p) == flat_get(pm_pre, p));
                }
                assert forall|p: int| 0 <= p < total implies flat_grad(parameter_manager@, p)
                    == #[trigger] flat_grad(store0, p) by {
                    assert(flat_grad(parameter_manager@, p) == flat_grad(pm_pre, p));
                }
            }
            match res {
                Ok(_) => (),
                Err(_) => unreached(),
            }
            let ghost velpre = self.vel();
            let nv = new_vels[i].duplicate();
            self.velocity[i] = nv;
            proof {
                assert forall|k: int| 0 <= k < i + 1 implies self.vel()[k] == (
                #[trigger] new_vels@[k])@ by {
                    assert(self.vel()[k] == self.velocity@[k]@);
                    if k != i as int {
                        assert(self.vel()[k] == velpre[k]);
                        assert(velpre[k] == new_vels@[k]@);
                    }
                }
                assert forall|k: int| i + 1 <= k < total implies self.vel()[k]
                    == #[trigger] vel0[k] by {
                    assert(self.vel()[k] == self.velocity@[k]@);
                    assert(self.vel()[k] == velpre[k]);
                }
                assert forall|k: int| 0 <= k < self.vel().len() implies (
                #[trigger] self.vel()[k]).wf() by {
                    if k == i as int {
                        assert(self.vel()[k] == self.velocity@[k]@);
                    } else {
                        assert(self.vel()[k] == self.velocity@[k]@);
                        assert(self.vel()[k] == velpre[k]);
                        assert(velpre[k].wf());
                    }
                }
            }
            i += 1;
        }
        self.iter = t;
        let ghost pmz = parameter_manager@;
        parameter_manager.zero_all_deltas();
        proof {
            assert(final(parameter_manager)@ == zero_store(pmz));
            crate::params::lemma_zero_count(pmz, 0);
            assert forall|p: int| 0 <= p < total implies flat_get(final(parameter_manager)@, p)
                == sv_sub(
                flat_get(store0, p),
                new_velocity(
                    #[trigger] vel0[p],
                    flat_grad(store0, p),
                    old(self).mom(),
                    ganum,
                    gaden,
                ),
            ) by {
                lemma_zero_store_flat(pmz, 0, p);
                assert(flat_get(pmz, p) == new_params@[p]@);
                assert(new_params@[p]@ == sv_sub(
                    flat_get(store0, p),
                    new_velocity(vel0[p], flat_grad(store0, p), old(self).mom(), ganum, gaden),
                ));
            }
            assert forall|p: int| 0 <= p < total implies ({
                let g = #[trigger] flat_grad(store0, p);
                flat_grad(final(parameter_manager)@, p) == sv_const(g.rows, g.cols, g.time, 0)
            }) by {
                lemma_zero_store_flat(pmz, 0, p);
                assert(flat_grad(pmz, p) == flat_grad(store0, p));
            }
            assert forall|l: int| 0 <= l < store0.len() implies {
                let b1 = store0[l];
                let b2 = #[trigger] final(parameter_manager)@[l];
                b2.activations == b1.activations && b2.inputs == b1.inputs && b2.outputs
                    == b1.outputs && b2.cur == b1.cur && b2.weights.len() == b1.weights.len()
                    && b2.biases.len() == b1.biases.len() && b2.deltas.len() == b1.deltas.len()
            } by {
                assert(final(parameter_manager)@[l] == crate::params::zero_bundle(pmz[l]));
            }
            assert forall|l: int, w: int|
                0 <= l < store0.len() && 0 <= w < store0[l].weights.len() implies (
            #[trigger] final(parameter_manager)@[l].weights[w]).same_shape(
                store0[l].weights[w],
            ) by {
                assert(final(parameter_manager)@[l] == crate::params::zero_bundle(pmz[l]));
                assert(pmz[l].weights[w].same_shape(store0[l].weights[w]));
            }
            assert forall|l: int, w: int|
                0 <= l < store0.len() && 0 <= w < store0[l].biases.len() implies (
            #[trigger] final(parameter_manager)@[l].biases[w]).same_shape(
                store0[l].biases[w],
            ) by {
                assert(final(parameter_manager)@[l] == crate::params::zero_bundle(pmz[l]));
                assert(pmz[l].biases[w].same_shape(store0[l].biases[w]));
            }
        }
        Ok(())
    }
}

/// Exact bounds on the decayed learning rate's numerator and denominator.
proof fn lemma_alpha_bounds(lr: Ratio, dec: Ratio, t: int, batch: int)
    by (nonlinear_arith)
    requires
        hyper_ok(lr),
        hyper_ok(dec),
        dec.num >= 0,
        1 <= t <= ITER_CAP,
        1 <= batch <= DIM_MAX,
    ensures
        -0x4000_0000_0000_0000 <= alpha_num(lr, dec) <= 0x4000_0000_0000_0000,
        1 <= alpha_den(lr, dec, t, batch),
        dec.num * t <= 0x8000_0000_0000_0000,
        dec.den + dec.num * t <= 0x1_0000_0000_0000_0000,
        lr.den * (dec.den + dec.num * t) <= 0x8000_0000_0000_0000_0000_0000,
        alpha_den(lr, dec, t, batch) <= 0x0800_0000_0000_0000_0000_0000_0000_0000,
{
}

} // verus!
