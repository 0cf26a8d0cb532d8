use vstd::prelude::*;

use crate::data::DataSouce;
use crate::error::HALError;
use crate::layer::dense::cached_output;
use crate::layer::dense::dense_backward_bundle;
use crate::layer::dense::dense_backward_ok;
use crate::layer::dense::dense_backward_out;
use crate::layer::dense::dense_forward_ok;
use crate::layer::dense::lemma_masked_backward;
use crate::layer::dense::dense_forward_out;
use crate::layer::Dense;
use crate::loss::loss_known;
use crate::loss::mse_num;
use crate::loss::sv_l2_fits;
use crate::optimizer::SGD;
use crate::params::dense_shaped;
use crate::params::flat_count;
use crate::params::flat_get;
use crate::params::is_fresh_dense;
use crate::params::recorded;
use crate::params::BundleView;
use crate::params::DenseGenerator;
use crate::params::ParamManager;
use crate::params::LAYER_MAX;
use crate::ratio::Ratio;
use crate::tensor::sv_const;
use crate::tensor::sv_slice;
use crate::tensor::sv_sub;
use crate::tensor::Dims;
use crate::tensor::Tensor;
use crate::tensor::TensorView;
use crate::tensor::DIM_MAX;
use crate::utils::all_digits;
use crate::utils::digits_val;
use crate::utils::parse_usize;
use crate::utils::str_eq;
use crate::utils::StrMap;

verus! {

/// The store and activation after feeding `x` through layers `l` onward, or
/// nothing when a shape fails to line up or an exact result leaves bounds.
pub open spec fn forward_spec(
    store: Seq<BundleView>,
    layers: Seq<Dense>,
    x: TensorView,
    l: int,
) -> Option<(Seq<BundleView>, TensorView)>
    decreases layers.len() - l,
{
    if l < 0 || l >= layers.len() {
        Some((store, x))
    } else {
        let d = layers[l];
        if x.is_matrix() && x.cols == d.input_size && dense_forward_ok(store[l], x) {
            forward_spec(
                store.update(l, recorded(store[l], x, dense_forward_out(store[l], x))),
                layers,
                dense_forward_out(store[l], x),
                l + 1,
            )
        } else {
            None
        }
    }
}

/// The store and propagated delta after one backward sweep over layers
/// `i - 1` down to `0`, or nothing when a shape fails to line up or an exact
/// result leaves bounds.
pub open spec fn backward_layers_spec(
    store: Seq<BundleView>,
    layers: Seq<Dense>,
    delta: TensorView,
    i: int,
) -> Option<(Seq<BundleView>, TensorView)>
    decreases i,
{
    if i <= 0 {
        Some((store, delta))
    } else {
        let l = i - 1;
        let b = store[l];
        if b.cur >= 1 && delta.is_matrix() && delta.rows == cached_output(b).rows && delta.cols
            == layers[l].output_size && dense_backward_ok(b, delta) {
            backward_layers_spec(
                store.update(l, dense_backward_bundle(b, delta)),
                layers,
                dense_backward_out(b, delta),
                l,
            )
        } else {
            None
        }
    }
}

/// A masked time step contributes nothing anywhere in the stack: walking an
/// all-zero delta back through the layers leaves every gradient, weight, and
/// bias of every layer exactly as it was, only steps each visited bundle's
/// unroll cursor back onto its consumed cached pair, and hands an all-zero
/// delta on down — for every step, every depth, and every batch size, not
/// just the last step of the shallowest model.
pub proof fn lemma_masked_sweep_accumulates_nothing(
    store: Seq<BundleView>,
    layers: Seq<Dense>,
    delta: TensorView,
    i: int,
)
    requires
        store.len() == layers.len(),
        forall|l: int|
            0 <= l < layers.len() ==> dense_shaped(
                store[l],
                (#[trigger] layers[l]).input_size as int,
                layers[l].output_size as int,
            ),
        0 <= i <= layers.len(),
        delta == sv_const(delta.rows, delta.cols, 1, 0),
        backward_layers_spec(store, layers, delta, i) is Some,
    ensures
        ({
            let down = backward_layers_spec(store, layers, delta, i)->Some_0;
            &&& down.0.len() == store.len()
            &&& (forall|l: int|
                0 <= l < store.len() ==> (#[trigger] down.0[l]).deltas == store[l].deltas
                    && down.0[l].weights == store[l].weights && down.0[l].biases
                    == store[l].biases && down.0[l].inputs == store[l].inputs && down.0[l].outputs
                    == store[l].outputs && down.0[l].activations == store[l].activations)
            &&& (forall|l: int| 0 <= l < i ==> (#[trigger] down.0[l]).cur == store[l].cur - 1)
            &&& (forall|l: int|
                i <= l < store.len() ==> (#[trigger] down.0[l]).cur == store[l].cur)
            &&& down.1 == sv_const(down.1.rows, down.1.cols, 1, 0)
            &&& down.1.rows == delta.rows
        }),
    decreases i,
{
    if i > 0 {
        let l = i - 1;
        let b = store[l];
        assert(dense_shaped(b, layers[l].input_size as int, layers[l].output_size as int));
        assert(b.cur >= 1 && delta.rows == cached_output(b).rows && delta.cols
            == layers[l].output_size && dense_backward_ok(b, delta));
        assert(b.wf());
        assert(b.outputs[b.cur - 1].wf());
        assert(cached_output(b).rows >= 1);
        assert(delta == sv_const(delta.rows, layers[l].output_size as nat, 1, 0));
        lemma_masked_backward(
            b,
            layers[l].input_size as int,
            layers[l].output_size as int,
            delta.rows,
        );
        let b2 = dense_backward_bundle(b, delta);
        assert(b2.deltas == b.deltas);
        let store2 = store.update(l, b2);
        let d2 = dense_backward_out(b, delta);
        assert(d2 == sv_const(delta.rows, layers[l].input_size as nat, 1, 0));
        assert(d2 == sv_const(d2.rows, d2.cols, 1, 0));
        assert forall|l2: int| 0 <= l2 < layers.len() implies dense_shaped(
            store2[l2],
            (#[trigger] layers[l2]).input_size as int,
            layers[l2].output_size as int,
        ) by {
            if l2 != l {
                assert(store2[l2] == store[l2]);
            } else {
                assert(b2.cur == b.cur - 1);
                assert(dense_shaped(b2, layers[l].input_size as int, layers[l].output_size as int));
            }
        }
        assert(backward_layers_spec(store, layers, delta, i) == backward_layers_spec(
            store2,
            layers,
            d2,
            l,
        ));
        lemma_masked_sweep_accumulates_nothing(store2, layers, d2, l);
        let down = backward_layers_spec(store2, layers, d2, l)->Some_0;
        assert forall|l2: int| 0 <= l2 < store.len() implies (#[trigger] down.0[l2]).deltas
            == store[l2].deltas && down.0[l2].weights == store[l2].weights && down.0[l2].biases
            == store[l2].biases && down.0[l2].inputs == store[l2].inputs && down.0[l2].outputs
            == store[l2].outputs && down.0[l2].activations == store[l2].activations by {
            if l2 != l {
                assert(store2[l2] == store[l2]);
            }
        }
        assert forall|l2: int| 0 <= l2 < i implies (#[trigger] down.0[l2]).cur == store[l2].cur
            - 1 by {
            if l2 == l {
                assert(down.0[l2].cur == store2[l2].cur);
            } else {
                assert(store2[l2] == store[l2]);
            }
        }
        assert forall|l2: int| i <= l2 < store.len() implies (#[trigger] down.0[l2]).cur
            == store[l2].cur by {
            assert(store2[l2] == store[l2]);
        }
    }
}

/// Whether the loss mask rules step `ind` out of the loss.
pub open spec fn masked_out(mask: Option<Seq<bool>>, ind: int) -> bool {
    match mask {
        Some(m) => !m[ind],
        None => false,
    }
}

/// The exact mean-squared-error value as a rational.
pub open spec fn mse_ratio(pred: TensorView, tar: TensorView) -> Ratio {
    Ratio { num: mse_num(pred, tar) as i64, den: (2 * pred.data.len()) as i64 }
}

/// The store and collected loss values after back-propagating time steps
/// `s - 1` down to `0`, last step first: each unmasked step contributes its
/// loss value and its loss derivative as the initial delta, each masked step
/// contributes no loss value and an all-zero delta, and every step walks all
/// layers in reverse before the step before it is taken up.
pub open spec fn backward_steps_spec(
    store: Seq<BundleView>,
    layers: Seq<Dense>,
    preds: Seq<TensorView>,
    targets: TensorView,
    mask: Option<Seq<bool>>,
    loss_name: Seq<char>,
    s: int,
) -> Option<(Seq<BundleView>, Seq<Ratio>)>
    decreases s,
{
    if s <= 0 {
        Some((store, Seq::empty()))
    } else {
        let ind = s - 1;
        let tar = sv_slice(targets, ind);
        if masked_out(mask, ind) {
            let delta = sv_const(tar.rows, tar.cols, 1, 0);
            match backward_layers_spec(store, layers, delta, layers.len() as int) {
                Some(down) => {
                    match backward_steps_spec(
                        down.0,
                        layers,
                        preds,
                        targets,
                        mask,
                        loss_name,
                        ind,
                    ) {
                        Some(rest) => Some(rest),
                        None => None,
                    }
                },
                None => None,
            }
        } else {
            if preds[ind].same_shape(tar) && loss_known(loss_name) && sv_l2_fits(preds[ind], tar) {
                let lossv = mse_ratio(preds[ind], tar);
                let delta = sv_sub(preds[ind], tar);
                match backward_layers_spec(store, layers, delta, layers.len() as int) {
                    Some(down) => {
                        match backward_steps_spec(
                            down.0,
                            layers,
                            preds,
                            targets,
                            mask,
                            loss_name,
                            ind,
                        ) {
                            Some(rest) => Some((rest.0, seq![lossv] + rest.1)),
                            None => None,
                        }
                    },
                    None => None,
                }
            } else {
                None
            }
        }
    }
}

/// Whether a configuration mapping holds every key a dense layer needs.
pub open spec fn dense_keys_present(params: StrMap) -> bool {
    &&& params.spec_get("input_size"@) is Some
    &&& params.spec_get("output_size"@) is Some
    &&& params.spec_get("activation"@) is Some
    &&& params.spec_get("w_init"@) is Some
    &&& params.spec_get("b_init"@) is Some
}

/// Whether the two size values parse as decimal numbers and describe usable
/// weight and bias extents.
pub open spec fn dense_sizes_ok(params: StrMap) -> bool {
    let si = params.spec_get("input_size"@)->Some_0;
    let so = params.spec_get("output_size"@)->Some_0;
    &&& si.len() > 0 && all_digits(si) && digits_val(si) <= usize::MAX
    &&& so.len() > 0 && all_digits(so) && digits_val(so) <= usize::MAX
    &&& (Dims {
        rows: digits_val(si) as usize,
        cols: digits_val(so) as usize,
        time: 1,
        extra: 1,
    }).wf()
    &&& (Dims { rows: digits_val(so) as usize, cols: 1, time: 1, extra: 1 }).wf()
}

/// Whether both initializer names of a configuration are registered.
pub open spec fn dense_inits_known(params: StrMap) -> bool {
    crate::initializations::init_known(params.spec_get("w_init"@)->Some_0)
        && crate::initializations::init_known(params.spec_get("b_init"@)->Some_0)
}

/// A sequential model: an ordered list of layers, the parameter store with
/// one bundle per layer, the optimizer, and the loss name. Drives the
/// training loop: forward pass, per-step loss and gradient, reverse layer
/// traversal, optimizer update.
#[derive(Debug)]
pub struct Sequential {
    layers: Vec<Dense>,
    param_manager: ParamManager,
    optimizer: SGD,
    loss: String,
}

impl Default for Sequential {
    /// A model with the default SGD optimizer and the mean-squared-error
    /// loss.
    fn default() -> (r: Sequential)
        ensures
            r.wf(),
            r.layer_seq().len() == 0,
            r.store().len() == 0,
            r.loss_name() == "mse"@,
            r.opt_iterations() == 0,
            r.opt_vel().len() == 0,
            r.opt_lr() == (Ratio { num: 1, den: 1000 }),
            r.opt_mom() == (Ratio { num: 0, den: 1 }),
            r.opt_dec() == (Ratio { num: 0, den: 1 }),
    {
        Sequential {
            layers: Vec::new(),
            param_manager: ParamManager::default(),
            optimizer: SGD::default(),
            loss: "mse".to_owned(),
        }
    }
}

impl Sequential {
    /// The parameter store's contents.
    pub closed spec fn store(self) -> Seq<BundleView> {
        self.param_manager@
    }

    /// The layers, in model order.
    pub closed spec fn layer_seq(self) -> Seq<Dense> {
        self.layers@
    }

    /// The loss name.
    pub closed spec fn loss_name(self) -> Seq<char> {
        self.loss@
    }

    /// Number of optimizer updates performed so far.
    pub closed spec fn opt_iterations(self) -> u64 {
        self.optimizer.iterations_spec()
    }

    /// The optimizer's velocity tensors.
    pub closed spec fn opt_vel(self) -> Seq<TensorView> {
        self.optimizer.vel()
    }

    pub closed spec fn opt_lr(self) -> Ratio {
        self.optimizer.lr()
    }

    pub closed spec fn opt_mom(self) -> Ratio {
        self.optimizer.mom()
    }

    pub closed spec fn opt_dec(self) -> Ratio {
        self.optimizer.dec()
    }

    /// The model invariant: layers and bundles in lock step, every bundle
    /// dense-shaped for its layer.
    pub closed spec fn wf(self) -> bool {
        &&& self.param_manager.wf()
        &&& self.optimizer.wf()
        &&& self.layers@.len() == self.param_manager@.len()
        &&& forall|l: int|
            0 <= l < self.layers@.len() ==> dense_shaped(
                self.param_manager@[l],
                (#[trigger] self.layers@[l]).input_size as int,
                self.layers@[l].output_size as int,
            )
    }

    /// A model with the given optimizer and loss, and no layers yet.
    pub fn new(optimizer: SGD, loss: &str) -> (r: Sequential)
        requires
            optimizer.wf(),
        ensures
            r.wf(),
            r.layer_seq().len() == 0,
            r.store().len() == 0,
            r.loss_name() == loss@,
            r.opt_iterations() == optimizer.iterations_spec(),
            r.opt_vel() == optimizer.vel(),
            r.opt_lr() == optimizer.lr(),
            r.opt_mom() == optimizer.mom(),
            r.opt_dec() == optimizer.dec(),
    {
        Sequential {
            layers: Vec::new(),
            param_manager: ParamManager::default(),
            optimizer,
            loss: loss.to_owned(),
        }
    }

    /// Number of layers added so far.
    pub fn num_layers(&self) -> (n: usize)
        ensures
            n == self.layer_seq().len(),
    {
        self.layers.len()
    }

    /// Number of optimizer updates performed so far.
    pub fn update_count(&self) -> (n: u64)
        ensures
            n == self.opt_iterations(),
    {
        self.optimizer.iterations()
    }

    /// A copy of the parameter at a flattened position, for inspection.
    pub fn parameter(&self, ind: usize) -> (r: Result<Tensor, HALError>)
        requires
            self.wf(),
        ensures
            r is Ok <==> ind < flat_count(self.store()),
            r is Ok ==> r->Ok_0.wf() && r->Ok_0@ == flat_get(self.store(), ind as int),
            r is Err ==> r->Err_0 == HALError::IndexOutOfRange,
    {
        self.param_manager.get_array_from_index(ind)
    }

    /// A copy of the accumulated gradient at a flattened position.
    pub fn gradient(&self, ind: usize) -> (r: Result<Tensor, HALError>)
        requires
            self.wf(),
        ensures
            r is Ok <==> ind < flat_count(self.store()),
            r is Ok ==> r->Ok_0.wf() && r->Ok_0@ == crate::params::flat_grad(
                self.store(),
                ind as int,
            ),
            r is Err ==> r->Err_0 == HALError::IndexOutOfRange,
    {
        self.param_manager.get_gradient_from_index(ind)
    }

    /// Adds a layer described by a configuration mapping. The keys a dense
    /// layer needs are `input_size`, `output_size`, `activation`, `w_init`
    /// and `b_init`; a missing key is `MissingConfigKey`, an unknown layer
    /// type `UnsupportedLayerType`, a size that does not parse or does not
    /// fit `ShapeMismatch`, an unknown initializer `UnknownInitializer`.
    pub fn add(&mut self, layer: &str, params: StrMap) -> (r: Result<(), HALError>)
        requires
            old(self).wf(),
        ensures
            final(self).wf(),
            final(self).loss_name() == old(self).loss_name(),
            final(self).opt_iterations() == old(self).opt_iterations(),
            final(self).opt_vel() == old(self).opt_vel(),
            final(self).opt_lr() == old(self).opt_lr(),
            final(self).opt_mom() == old(self).opt_mom(),
            final(self).opt_dec() == old(self).opt_dec(),
            r is Err ==> final(self).layer_seq() == old(self).layer_seq() && final(self).store()
                == old(self).store(),
            r is Ok <==> (layer@ == "dense"@ && dense_keys_present(params) && dense_sizes_ok(
                params,
            ) && dense_inits_known(params) && old(self).layer_seq().len() < LAYER_MAX),
            r is Err && r->Err_0 == HALError::UnsupportedLayerType <==> layer@ != "dense"@,
            r is Err && r->Err_0 == HALError::MissingConfigKey <==> (layer@ == "dense"@
                && !dense_keys_present(params)),
            r is Err && r->Err_0 == HALError::ShapeMismatch <==> (layer@ == "dense"@
                && dense_keys_present(params) && !dense_sizes_ok(params)),
            r is Err && r->Err_0 == HALError::Overflow <==> (layer@ == "dense"@
                && dense_keys_present(params) && dense_sizes_ok(params) && old(
                self,
            ).layer_seq().len() >= LAYER_MAX),
            r is Err && r->Err_0 == HALError::UnknownInitializer <==> (layer@ == "dense"@
                && dense_keys_present(params) && dense_sizes_ok(params) && old(
                self,
            ).layer_seq().len() < LAYER_MAX && !dense_inits_known(params)),
            r is Ok ==> ({
                let si = digits_val(params.spec_get("input_size"@)->Some_0);
                let so = digits_val(params.spec_get("output_size"@)->Some_0);
                &&& final(self).layer_seq() == old(self).layer_seq().push(
                    Dense { input_size: si as usize, output_size: so as usize },
                )
                &&& final(self).store().len() == old(self).store().len() + 1
                &&& (forall|l: int|
                    0 <= l < old(self).store().len() ==> final(self).store()[l] == #[trigger] old(
                        self,
                    ).store()[l])
                &&& is_fresh_dense(
                    final(self).store().last(),
                    si,
                    so,
                    params.spec_get("activation"@)->Some_0,
                    params.spec_get("w_init"@)->Some_0,
                    params.spec_get("b_init"@)->Some_0,
                )
            }),
    {
        if !str_eq(layer, "dense") {
            return Err(HALError::UnsupportedLayerType);
        }
        let input_size_s = match params.get("input_size") {
            Some(v) => v,
            None => {
                return Err(HALError::MissingConfigKey);
            },
        };
        let output_size_s = match params.get("output_size") {
            Some(v) => v,
            None => {
                return Err(HALError::MissingConfigKey);
            },
        };
        let activation = match params.get("activation") {
            Some(v) => v,
            None => {
                return Err(HALError::MissingConfigKey);
            },
        };
        let w_init = match params.get("w_init") {
            Some(v) => v,
            None => {
                return Err(HALError::MissingConfigKey);
            },
        };
        let b_init = match params.get("b_init") {
            Some(v) => v,
            None => {
                return Err(HALError::MissingConfigKey);
            },
        };
        let input_size = match parse_usize(input_size_s.as_str()) {
            Some(v) => v,
            None => {
                return Err(HALError::ShapeMismatch);
            },
        };
        let output_size = match parse_usize(output_size_s.as_str()) {
            Some(v) => v,
            None => {
                return Err(HALError::ShapeMismatch);
            },
        };
        let wd = Dims { rows: input_size, cols: output_size, time: 1, extra: 1 };
        let bd = Dims { rows: output_size, cols: 1, time: 1, extra: 1 };
        if !wd.check() || !bd.check() {
            return Err(HALError::ShapeMismatch);
        }
        if self.layers.len() >= LAYER_MAX {
            return Err(HALError::Overflow);
        }
        proof {
            assert(self.layers@.len() == self.param_manager@.len());
        }
        let r = self.param_manager.add_dense(
            input_size,
            output_size,
            activation.as_str(),
            w_init.as_str(),
            b_init.as_str(),
        );
        match r {
            Ok(_) => {
                self.layers.push(Dense { input_size, output_size });
                proof {
                    assert(final(self).store().last() == self.param_manager@.last());
                    assert forall|l: int| 0 <= l < self.layers@.len() implies dense_shaped(
                        self.param_manager@[l],
                        (#[trigger] self.layers@[l]).input_size as int,
                        self.layers@[l].output_size as int,
                    ) by {
                        if l < old(self).layers@.len() {
                            assert(self.layers@[l] == old(self).layers@[l]);
                            assert(self.param_manager@[l] == old(self).param_manager@[l]);
                        } else {
                            assert(self.param_manager@[l] == self.param_manager@.last());
                        }
                    }
                }
                Ok(())
            },
            Err(e) => Err(e),
        }
    }

    /// Feeds `inputs` through every layer in order, threading each layer's
    /// activated output into the next layer as its input, and returns copies
    /// of the last layer's cached outputs across however many unroll steps
    /// stand recorded.
    pub fn forward(&mut self, inputs: &Tensor) -> (r: Result<Vec<Tensor>, HALError>)
        requires
            old(self).wf(),
            inputs.wf(),
        ensures
            final(self).wf(),
            final(self).layer_seq() == old(self).layer_seq(),
            final(self).loss_name() == old(self).loss_name(),
            final(self).opt_iterations() == old(self).opt_iterations(),
            final(self).opt_vel() == old(self).opt_vel(),
            final(self).opt_lr() == old(self).opt_lr(),
            final(self).opt_mom() == old(self).opt_mom(),
            final(self).opt_dec() == old(self).opt_dec(),
            r is Ok <==> old(self).layer_seq().len() >= 1 && inputs@.is_matrix() && forward_spec(
                old(self).store(),
                old(self).layer_seq(),
                inputs@,
                0,
            ) is Some,
            r is Ok ==> ({
                let res = forward_spec(
                    old(self).store(),
                    old(self).layer_seq(),
                    inputs@,
                    0,
                )->Some_0;
                let last = res.0[old(self).layer_seq().len() - 1];
                &&& final(self).store() == res.0
                &&& r->Ok_0@.len() == last.outputs.len()
                &&& (forall|i: int|
                    0 <= i < r->Ok_0@.len() ==> (#[trigger] r->Ok_0@[i]).wf() && r->Ok_0@[i]@
                        == last.outputs[i])
            }),
            r is Err && r->Err_0 == HALError::NoLayers <==> old(self).layer_seq().len() == 0,
            r is Err ==> r->Err_0 == HALError::NoLayers || r->Err_0 == HALError::ShapeMismatch
                || r->Err_0 == HALError::Overflow || r->Err_0 == HALError::UnknownActivation,
    {
        if self.layers.len() == 0 {
            return Err(HALError::NoLayers);
        }
        if inputs.dims.time != 1 {
            return Err(HALError::ShapeMismatch);
        }
        let n = self.layers.len();
        let mut activate = inputs.duplicate();
        let mut l: usize = 0;
        while l < n
            invariant
                old(self).wf(),
                self.wf(),
                n == self.layers@.len(),
                n >= 1,
                self.layers@ == old(self).layer_seq(),
                self.loss@ == old(self).loss_name(),
                self.optimizer.iterations_spec() == old(self).opt_iterations(),
                self.optimizer.vel() == old(self).opt_vel(),
                self.optimizer.lr() == old(self).opt_lr(),
                self.optimizer.mom() == old(self).opt_mom(),
                self.optimizer.dec() == old(self).opt_dec(),
                inputs@.is_matrix(),
                l <= n,
                activate.wf(),
                activate@.is_matrix(),
                forward_spec(old(self).store(), old(self).layer_seq(), inputs@, 0) == forward_spec(
                    self.param_manager@,
                    self.layers@,
                    activate@,
                    l as int,
                ),
            decreases n - l,
        {
            let d = self.layers[l];
            proof {
                assert(dense_shaped(
                    self.param_manager@[l as int],
                    d.input_size as int,
                    d.output_size as int,
                ));
            }
            if activate.dims.cols != d.input_size {
                return Err(HALError::ShapeMismatch);
            }
            let ghost pre = self.param_manager@;
            let ghost act_pre = activate@;
            let bundle = &mut self.param_manager.layer_storage[l];
            let out = match d.forward(bundle, &activate) {
                Ok(t) => t,
                Err(e) => {
                    proof {
                        assert(forward_spec(pre, self.layers@, act_pre, l as int) is None);
                        assert(self.param_manager@ =~= pre);
                    }
                    return Err(e);
                },
            };
            proof {
                assert(self.param_manager@ =~= pre.update(
                    l as int,
                    recorded(pre[l as int], act_pre, dense_forward_out(pre[l as int], act_pre)),
                ));
                assert(forward_spec(pre, self.layers@, act_pre, l as int) == forward_spec(
                    self.param_manager@,
                    self.layers@,
                    out@,
                    l as int + 1,
                ));
                assert forall|l2: int| 0 <= l2 < self.param_manager@.len() implies (
                #[trigger] self.param_manager@[l2]).wf() by {
                    if l2 != l as int {
                        assert(self.param_manager@[l2] == pre[l2]);
                    }
                }
                assert forall|l2: int| 0 <= l2 < self.layers@.len() implies dense_shaped(
                    self.param_manager@[l2],
                    (#[trigger] self.layers@[l2]).input_size as int,
                    self.layers@[l2].output_size as int,
                ) by {
                    if l2 != l as int {
                        assert(self.param_manager@[l2] == pre[l2]);
                    }
                }
            }
            activate = out;
            l += 1;
        }
        let preds = self.param_manager.get_outputs(n - 1);
        proof {
            assert(forward_spec(self.param_manager@, self.layers@, activate@, n as int)
                == Some::<(Seq<BundleView>, TensorView)>((self.param_manager@, activate@)));
        }
        Ok(preds)
    }

    /// Computes every layer's gradients from a list of per-step predictions:
    /// time steps are taken last step first, each step's loss derivative —
    /// or an all-zero delta where the loss mask rules the step out — is
    /// walked through all layers in reverse order, and gradients accumulate
    /// across steps into the same bundle slots. Sizes the optimizer's
    /// velocity state on first use. Returns the loss values actually
    /// computed; masked-out steps contribute none.
    pub fn backward(
        &mut self,
        predictions: &Vec<Tensor>,
        targets: &Tensor,
        loss_indices: Option<&Vec<bool>>,
    ) -> (r: Result<Vec<Ratio>, HALError>)
        requires
            old(self).wf(),
            forall|i: int| 0 <= i < predictions@.len() ==> (#[trigger] predictions@[i]).wf(),
            targets.wf(),
            predictions@.len() <= targets@.time,
            match loss_indices {
                Some(m) => m@.len() >= predictions@.len(),
                None => true,
            },
        ensures
            final(self).wf(),
            final(self).layer_seq() == old(self).layer_seq(),
            final(self).loss_name() == old(self).loss_name(),
            final(self).opt_iterations() == old(self).opt_iterations(),
            final(self).opt_lr() == old(self).opt_lr(),
            final(self).opt_mom() == old(self).opt_mom(),
            final(self).opt_dec() == old(self).opt_dec(),
            old(self).opt_vel().len() > 0 ==> final(self).opt_vel() == old(self).opt_vel(),
            old(self).opt_vel().len() == 0 ==> final(self).opt_vel().len() == flat_count(
                old(self).store(),
            ) && (forall|i: int|
                0 <= i < flat_count(old(self).store()) ==> ({
                    let g = #[trigger] flat_get(old(self).store(), i);
                    final(self).opt_vel()[i] == sv_const(g.rows, g.cols, g.time, 0)
                })),
            r is Ok <==> backward_steps_spec(
                old(self).store(),
                old(self).layer_seq(),
                crate::tensor::tensor_views(predictions@),
                targets@,
                mask_view(loss_indices),
                old(self).loss_name(),
                predictions@.len() as int,
            ) is Some,
            r is Ok ==> ({
                let res = backward_steps_spec(
                    old(self).store(),
                    old(self).layer_seq(),
                    crate::tensor::tensor_views(predictions@),
                    targets@,
                    mask_view(loss_indices),
                    old(self).loss_name(),
                    predictions@.len() as int,
                )->Some_0;
                &&& final(self).store() == res.0
                &&& r->Ok_0@ == res.1
            }),
            r is Err ==> r->Err_0 == HALError::ShapeMismatch || r->Err_0 == HALError::Overflow
                || r->Err_0 == HALError::UnknownActivation || r->Err_0 == HALError::UnknownLoss,
    {
        let dims = self.param_manager.get_all_dims();
        let ghost dimsv = dims@;
        self.optimizer.setup(dims);
        proof {
            if old(self).opt_vel().len() == 0 {
                assert forall|i: int| 0 <= i < flat_count(old(self).store()) implies ({
                    let g = #[trigger] flat_get(old(self).store(), i);
                    self.optimizer.vel()[i] == sv_const(g.rows, g.cols, g.time, 0)
                }) by {
                    assert(flat_get(old(self).store(), i).shape_of(dimsv[i]));
                    assert(self.optimizer.vel()[i] == sv_const(
                        dimsv[i].rows as nat,
                        dimsv[i].cols as nat,
                        dimsv[i].time as nat,
                        0,
                    ));
                }
            }
        }
        let ghost store0 = self.param_manager@;
        let ghost layers0 = self.layers@;
        let ghost predsv = crate::tensor::tensor_views(predictions@);
        let ghost maskv = mask_view(loss_indices);
        let ghost loss0 = self.loss@;
        let sn = predictions.len();
        let n_layers = self.layers.len();
        let mut losses: Vec<Ratio> = Vec::new();
        let mut s: usize = sn;
        proof {
            assert(losses@ + backward_steps_spec(
                store0,
                layers0,
                predsv,
                targets@,
                maskv,
                loss0,
                sn as int,
            )->Some_0.1 =~= backward_steps_spec(
                store0,
                layers0,
                predsv,
                targets@,
                maskv,
                loss0,
                sn as int,
            )->Some_0.1);
        }
        while s > 0
            invariant
                old(self).wf(),
                self.wf(),
                n_layers == self.layers@.len(),
                sn == predictions@.len(),
                self.layers@ == old(self).layer_seq(),
                layers0 == self.layers@,
                store0 == old(self).store(),
                self.loss@ == old(self).loss_name(),
                loss0 == self.loss@,
                predsv == crate::tensor::tensor_views(predictions@),
                maskv == mask_view(loss_indices),
                self.optimizer.iterations_spec() == old(self).opt_iterations(),
                self.optimizer.lr() == old(self).opt_lr(),
                self.optimizer.mom() == old(self).opt_mom(),
                self.optimizer.dec() == old(self).opt_dec(),
                old(self).opt_vel().len() > 0 ==> self.optimizer.vel() == old(self).opt_vel(),
                old(self).opt_vel().len() == 0 ==> self.optimizer.vel().len() == flat_count(
                    old(self).store(),
                ) && (forall|i: int|
                    0 <= i < flat_count(old(self).store()) ==> ({
                        let g = #[trigger] flat_get(old(self).store(), i);
                        self.optimizer.vel()[i] == sv_const(g.rows, g.cols, g.time, 0)
                    })),
                forall|i: int| 0 <= i < predictions@.len() ==> (#[trigger] predictions@[i]).wf(),
                targets.wf(),
                sn <= targets@.time,
                match loss_indices {
                    Some(m) => m@.len() >= sn,
                    None => true,
                },
                s <= sn,
                ({
                    let full = backward_steps_spec(
                        store0,
                        layers0,
                        predsv,
                        targets@,
                        maskv,
                        loss0,
                        sn as int,
                    );
                    let part = backward_steps_spec(
                        self.param_manager@,
                        layers0,
                        predsv,
                        targets@,
                        maskv,
                        loss0,
                        s as int,
                    );
                    full == (match part {
                        Some(p) => Some((p.0, losses@ + p.1)),
                        None => None,
                    })
                }),
            decreases s,
        {
            let ghost losses_pre = losses@;
            let ind = s - 1;
            let tar = crate::tensor::slice_time(targets, ind);
            let masked = match loss_indices {
                Some(m) => !m[ind],
                None => false,
            };
            proof {
                assert(masked == masked_out(maskv, ind as int));
                assert(tar@ == sv_slice(targets@, ind as int));
            }
            let delta_first: Tensor;
            if masked {
                proof {
                    crate::tensor::lemma_count_bounds(
                        tar.dims.rows as int,
                        tar.dims.cols as int,
                        tar.dims.time as int,
                    );
                }
                let zd = Dims { rows: tar.dims.rows, cols: tar.dims.cols, time: 1, extra: 1 };
                delta_first = crate::tensor::fill(zd, 0);
            } else {
                let p = &predictions[ind];
                if !(p.dims.rows == tar.dims.rows && p.dims.cols == tar.dims.cols && p.dims.time
                    == tar.dims.time) {
                    proof {
                        assert(predsv[ind as int] == predictions@[ind as int]@);
                        assert(!predsv[ind as int].same_shape(sv_slice(targets@, ind as int)));
                        assert(backward_steps_spec(
                            self.param_manager@,
                            layers0,
                            predsv,
                            targets@,
                            maskv,
                            loss0,
                            s as int,
                        ) is None);
                    }
                    return Err(HALError::ShapeMismatch);
                }
                let lossv = match crate::loss::get_loss(self.loss.as_str(), p, &tar) {
                    Ok(v) => v,
                    Err(e) => {
                        proof {
                            assert(predsv[ind as int] == predictions@[ind as int]@);
                            assert(!(loss_known(loss0) && sv_l2_fits(
                                predsv[ind as int],
                                sv_slice(targets@, ind as int),
                            )));
                            assert(backward_steps_spec(
                                self.param_manager@,
                                layers0,
                                predsv,
                                targets@,
                                maskv,
                                loss0,
                                s as int,
                            ) is None);
                        }
                        return Err(e);
                    },
                };
                proof {
                    assert(lossv == mse_ratio(predsv[ind as int], sv_slice(targets@, ind as int)));
                }
                losses.push(lossv);
                delta_first = match crate::loss::get_loss_derivative(self.loss.as_str(), p, &tar) {
                    Ok(d) => d,
                    Err(_) => unreached(),
                };
            }
            let mut delta = delta_first;
            let ghost step_store0 = self.param_manager@;
            let ghost delta0 = delta@;
            let mut li: usize = n_layers;
            while li > 0
                invariant
                    old(self).wf(),
                    self.wf(),
                    n_layers == self.layers@.len(),
                    layers0 == self.layers@,
                    self.layers@ == old(self).layer_seq(),
                    store0 == old(self).store(),
                    li <= n_layers,
                    delta.wf(),
                    self.loss@ == loss0,
                    self.loss@ == old(self).loss_name(),
                    sn == predictions@.len(),
                    predsv == crate::tensor::tensor_views(predictions@),
                    maskv == mask_view(loss_indices),
                    s == ind + 1,
                    0 <= ind < sn,
                    sn <= targets@.time,
                    masked == masked_out(maskv, ind as int),
                    !masked ==> predsv[ind as int].same_shape(sv_slice(targets@, ind as int))
                        && loss_known(loss0) && sv_l2_fits(
                        predsv[ind as int],
                        sv_slice(targets@, ind as int),
                    ),
                    masked ==> delta0 == sv_const(
                        sv_slice(targets@, ind as int).rows,
                        sv_slice(targets@, ind as int).cols,
                        1,
                        0,
                    ),
                    !masked ==> delta0 == sv_sub(
                        predsv[ind as int],
                        sv_slice(targets@, ind as int),
                    ),
                    ({
                        let full = backward_steps_spec(
                            store0,
                            layers0,
                            predsv,
                            targets@,
                            maskv,
                            loss0,
                            sn as int,
                        );
                        let part = backward_steps_spec(
                            step_store0,
                            layers0,
                            predsv,
                            targets@,
                            maskv,
                            loss0,
                            s as int,
                        );
                        full == (match part {
                            Some(p) => Some((p.0, losses_pre + p.1)),
                            None => None,
                        })
                    }),
                    !masked ==> losses@ == losses_pre.push(
                        mse_ratio(predsv[ind as int], sv_slice(targets@, ind as int)),
                    ),
                    masked ==> losses@ == losses_pre,
                    self.optimizer.iterations_spec() == old(self).opt_iterations(),
                    self.optimizer.lr() == old(self).opt_lr(),
                    self.optimizer.mom() == old(self).opt_mom(),
                    self.optimizer.dec() == old(self).opt_dec(),
                    old(self).opt_vel().len() > 0 ==> self.optimizer.vel() == old(self).opt_vel(),
                    old(self).opt_vel().len() == 0 ==> self.optimizer.vel().len() == flat_count(
                        old(self).store(),
                    ) && (forall|i: int|
                        0 <= i < flat_count(old(self).store()) ==> ({
                            let g = #[trigger] flat_get(old(self).store(), i);
                            self.optimizer.vel()[i] == sv_const(g.rows, g.cols, g.time, 0)
                        })),
                    backward_layers_spec(step_store0, layers0, delta0, n_layers as int)
                        == backward_layers_spec(self.param_manager@, layers0, delta@, li as int),
                decreases li,
            {
                let l = li - 1;
                let d = self.layers[l];
                proof {
                    assert(dense_shaped(
                        self.param_manager@[l as int],
                        d.input_size as int,
                        d.output_size as int,
                    ));
                    assert(self.param_manager@[l as int].wf());
                }
                let cur = self.param_manager.layer_storage[l].current_unroll;
                if cur == 0 {
                    proof {
                        assert(backward_layers_spec(self.param_manager@, layers0, delta@, li as int)
                            is None);
                        assert(backward_steps_spec(
                            step_store0,
                            layers0,
                            predsv,
                            targets@,
                            maskv,
                            loss0,
                            s as int,
                        ) is None);
                    }
                    return Err(HALError::ShapeMismatch);
                }
                proof {
                    assert(self.param_manager@[l as int].outputs[cur - 1]
                        == self.param_manager.layer_storage@[l as int].outputs@[cur - 1]@);
                }
                let orows = self.param_manager.layer_storage[l].outputs[cur - 1].dims.rows;
                if !(delta.dims.time == 1 && delta.dims.rows == orows && delta.dims.cols
                    == d.output_size) {
                    proof {
                        assert(backward_layers_spec(self.param_manager@, layers0, delta@, li as int)
                            is None);
                        assert(backward_steps_spec(
                            step_store0,
                            layers0,
                            predsv,
                            targets@,
                            maskv,
                            loss0,
                            s as int,
                        ) is None);
                    }
                    return Err(HALError::ShapeMismatch);
                }
                let ghost pre = self.param_manager@;
                let ghost delta_pre = delta@;
                let bundle = &mut self.param_manager.layer_storage[l];
                let next = match d.backward(bundle, &delta) {
                    Ok(t) => t,
                    Err(e) => {
                        proof {
                            assert(self.param_manager@ =~= pre);
                            assert(backward_layers_spec(pre, layers0, delta_pre, li as int)
                                is None);
                            assert(backward_steps_spec(
                                step_store0,
                                layers0,
                                predsv,
                                targets@,
                                maskv,
                                loss0,
                                s as int,
                            ) is None);
                        }
                        return Err(e);
                    },
                };
                proof {
                    assert(self.param_manager@ =~= pre.update(
                        l as int,
                        dense_backward_bundle(pre[l as int], delta_pre),
                    ));
                    assert(backward_layers_spec(pre, layers0, delta_pre, li as int)
                        == backward_layers_spec(self.param_manager@, layers0, next@, l as int));
                    assert forall|l2: int| 0 <= l2 < self.param_manager@.len() implies (
                    #[trigger] self.param_manager@[l2]).wf() by {
                        if l2 != l as int {
                            assert(self.param_manager@[l2] == pre[l2]);
                        }
                    }
                    assert forall|l2: int| 0 <= l2 < self.layers@.len() implies dense_shaped(
                        self.param_manager@[l2],
                        (#[trigger] self.layers@[l2]).input_size as int,
                        self.layers@[l2].output_size as int,
                    ) by {
                        if l2 != l as int {
                            assert(self.param_manager@[l2] == pre[l2]);
                        } else {
                            assert(dense_shaped(pre[l2], d.input_size as int, d.output_size as int));
                        }
                    }
                }
                delta = next;
                li = l;
            }
            proof {
                assert(backward_layers_spec(self.param_manager@, layers0, delta@, 0)
                    == Some::<(Seq<BundleView>, TensorView)>((self.param_manager@, delta@)));
                assert(backward_layers_spec(step_store0, layers0, delta0, n_layers as int)
                    == Some::<(Seq<BundleView>, TensorView)>((self.param_manager@, delta@)));
                let part_s = backward_steps_spec(
                    step_store0,
                    layers0,
                    predsv,
                    targets@,
                    maskv,
                    loss0,
                    s as int,
                );
                let rest = backward_steps_spec(
                    self.param_manager@,
                    layers0,
                    predsv,
                    targets@,
                    maskv,
                    loss0,
                    ind as int,
                );
                if masked {
                    assert(part_s == rest);
                    assert(losses@ == losses_pre);
                } else {
                    let tv = sv_slice(targets@, ind as int);
                    let lv = mse_ratio(predsv[ind as int], tv);
                    assert(predsv[ind as int] == predictions@[ind as int]@);
                    assert(predsv[ind as int].same_shape(tv));
                    assert(part_s == (match rest {
                        Some(p) => Some::<(Seq<BundleView>, Seq<Ratio>)>(
                            (p.0, seq![lv] + p.1),
                        ),
                        None => None,
                    }));
                    assert(losses@ == losses_pre.push(lv));
                    if rest is Some {
                        assert(losses_pre + (seq![lv] + rest->Some_0.1) =~= losses@
                            + rest->Some_0.1);
                    }
                }
            }
            s = ind;
        }
        proof {
            assert(backward_steps_spec(
                self.param_manager@,
                layers0,
                predsv,
                targets@,
                maskv,
                loss0,
                0,
            ) == Some::<(Seq<BundleView>, Seq<Ratio>)>((self.param_manager@, Seq::empty())));
            assert(losses@ + Seq::<Ratio>::empty() =~= losses@);
        }
        Ok(losses)
    }
}

/// The optimizer's velocity state after its lazy allocation against a store:
/// an existing allocation is kept as it is, an empty one becomes one zero
/// tensor per flattened parameter shape.
pub open spec fn setup_vel(vel: Seq<TensorView>, store: Seq<BundleView>) -> Seq<TensorView> {
    if vel.len() > 0 {
        vel
    } else {
        Seq::new(
            flat_count(store) as nat,
            |i: int|
                {
                    let g = flat_get(store, i);
                    sv_const(g.rows, g.cols, g.time, 0)
                },
        )
    }
}

impl Sequential {
    /// One whole training step: forward pass, backward pass over every
    /// recorded unroll step, optimizer update, gradients zeroed — the state
    /// machine of one optimizer step, closed. Fails fast, before any
    /// parameter changes, on a shape out of line or an exact value out of
    /// bounds.
    #[verifier::rlimit(50)]
    pub fn train_step(
        &mut self,
        input: &Tensor,
        target: &Tensor,
        loss_indices: Option<&Vec<bool>>,
        batch_size: u64,
    ) -> (r: Result<Vec<Ratio>, HALError>)
        requires
            old(self).wf(),
            input.wf(),
            target.wf(),
            1 <= batch_size <= DIM_MAX as u64,
        ensures
            final(self).wf(),
            final(self).layer_seq() == old(self).layer_seq(),
            final(self).loss_name() == old(self).loss_name(),
            final(self).opt_lr() == old(self).opt_lr(),
            final(self).opt_mom() == old(self).opt_mom(),
            final(self).opt_dec() == old(self).opt_dec(),
            r is Ok ==> final(self).opt_iterations() == old(self).opt_iterations() + 1,
            r is Err ==> final(self).opt_iterations() == old(self).opt_iterations(),
            r is Err ==> r->Err_0 == HALError::NoLayers || r->Err_0 == HALError::ShapeMismatch
                || r->Err_0 == HALError::Overflow || r->Err_0 == HALError::UnknownActivation
                || r->Err_0 == HALError::UnknownLoss,
            r is Err && r->Err_0 == HALError::NoLayers <==> old(self).layer_seq().len() == 0,
            r is Ok <==> ({
                let f = forward_spec(old(self).store(), old(self).layer_seq(), input@, 0);
                &&& old(self).layer_seq().len() >= 1
                &&& input@.is_matrix()
                &&& f is Some
                &&& ({
                    let s1 = f->Some_0.0;
                    let preds = s1[old(self).layer_seq().len() - 1].outputs;
                    let bs = backward_steps_spec(
                        s1,
                        old(self).layer_seq(),
                        preds,
                        target@,
                        mask_view(loss_indices),
                        old(self).loss_name(),
                        preds.len() as int,
                    );
                    &&& preds.len() <= target@.time
                    &&& (match mask_view(loss_indices) {
                        Some(m) => m.len() >= preds.len(),
                        None => true,
                    })
                    &&& bs is Some
                    &&& crate::optimizer::update_ok(
                        bs->Some_0.0,
                        setup_vel(old(self).opt_vel(), s1),
                        old(self).opt_lr(),
                        old(self).opt_mom(),
                        old(self).opt_dec(),
                        old(self).opt_iterations() as int + 1,
                        batch_size as int,
                    )
                })
            }),
            r is Ok ==> ({
                let f = forward_spec(old(self).store(), old(self).layer_seq(), input@, 0);
                let s1 = f->Some_0.0;
                let preds = s1[old(self).layer_seq().len() - 1].outputs;
                let bs = backward_steps_spec(
                    s1,
                    old(self).layer_seq(),
                    preds,
                    target@,
                    mask_view(loss_indices),
                    old(self).loss_name(),
                    preds.len() as int,
                );
                let s2 = bs->Some_0.0;
                let vel1 = setup_vel(old(self).opt_vel(), s1);
                let anum = crate::optimizer::alpha_num(old(self).opt_lr(), old(self).opt_dec());
                let aden = crate::optimizer::alpha_den(
                    old(self).opt_lr(),
                    old(self).opt_dec(),
                    old(self).opt_iterations() as int + 1,
                    batch_size as int,
                );
                &&& r->Ok_0@ == bs->Some_0.1
                &&& flat_count(final(self).store()) == flat_count(s2)
                &&& (forall|k: int|
                    0 <= k < vel1.len() ==> flat_get(final(self).store(), k) == sv_sub(
                        flat_get(s2, k),
                        crate::optimizer::new_velocity(
                            #[trigger] vel1[k],
                            crate::params::flat_grad(s2, k),
                            old(self).opt_mom(),
                            anum,
                            aden,
                        ),
                    ))
                &&& (forall|k: int|
                    0 <= k < vel1.len() ==> ({
                        let g = #[trigger] crate::params::flat_grad(s2, k);
                        crate::params::flat_grad(final(self).store(), k) == sv_const(
                            g.rows,
                            g.cols,
                            g.time,
                            0,
                        )
                    }))
            }),
    {
        let preds = match self.forward(input) {
            Ok(p) => p,
            Err(e) => {
                return Err(e);
            },
        };
        let ghost s1 = self.param_manager@;
        proof {
            assert(crate::tensor::tensor_views(preds@) =~= s1[old(self).layer_seq().len()
                - 1].outputs);
        }
        if preds.len() > target.dims.time {
            return Err(HALError::ShapeMismatch);
        }
        match loss_indices {
            Some(m) => {
                if m.len() < preds.len() {
                    return Err(HALError::ShapeMismatch);
                }
            },
            None => {},
        }
        let ghost vel0 = self.optimizer.vel();
        let losses = match self.backward(&preds, target, loss_indices) {
            Ok(l) => l,
            Err(e) => {
                return Err(e);
            },
        };
        proof {
            if vel0.len() == 0 {
                assert(self.optimizer.vel() =~= setup_vel(vel0, s1));
            } else {
                assert(self.optimizer.vel() == setup_vel(vel0, s1));
            }
        }
        let ghost s2v = self.param_manager@;
        proof {
            assert(self.wf());
        }
        match self.optimizer.update(&mut self.param_manager, batch_size) {
            Ok(_) => {},
            Err(e) => {
                return Err(e);
            },
        }
        proof {
            assert forall|l: int| 0 <= l < self.layers@.len() implies dense_shaped(
                self.param_manager@[l],
                (#[trigger] self.layers@[l]).input_size as int,
                self.layers@[l].output_size as int,
            ) by {
                let d = self.layers@[l];
                assert(dense_shaped(s2v[l], d.input_size as int, d.output_size as int));
                let b2 = self.param_manager@[l];
                assert(b2.weights.len() == s2v[l].weights.len());
                assert(b2.weights[0].same_shape(s2v[l].weights[0]));
                assert(b2.biases[0].same_shape(s2v[l].biases[0]));
                assert(b2.inputs == s2v[l].inputs);
                assert(b2.outputs == s2v[l].outputs);
                assert(b2.activations == s2v[l].activations);
                assert(b2.wf());
            }
            assert(self.wf());
        }
        Ok(losses)
    }

    /// Fits the model to a data source: for each of `epochs` epochs, pulls
    /// `numSamples / batchSize` minibatches and runs one whole training step
    /// on each, collecting every loss value computed. Performs exactly
    /// `epochs · (numSamples / batchSize)` optimizer updates when it returns
    /// successfully. Fails with `NoLayers` on a model without layers, and
    /// with `ShapeMismatch` when the source's input and target extents do
    /// not pair up or a minibatch does not have `batchSize` rows.
    pub fn fit<T: DataSouce>(
        &mut self,
        source: &mut T,
        epochs: u64,
        batch_size: u64,
        loss_indices: Option<&Vec<bool>>,
    ) -> (r: Result<Vec<Ratio>, HALError>)
        requires
            old(self).wf(),
            1 <= batch_size <= DIM_MAX as u64,
        ensures
            final(self).wf(),
            final(self).layer_seq() == old(self).layer_seq(),
            final(self).loss_name() == old(self).loss_name(),
            final(self).opt_lr() == old(self).opt_lr(),
            final(self).opt_mom() == old(self).opt_mom(),
            final(self).opt_dec() == old(self).opt_dec(),
            r is Err && r->Err_0 == HALError::NoLayers <==> old(self).layer_seq().len() == 0,
            old(self).layer_seq().len() == 0 ==> final(self).store() == old(self).store()
                && final(self).opt_iterations() == old(self).opt_iterations()
                && final(self).opt_vel() == old(self).opt_vel(),
            ({
                let info = old(source).spec_info();
                old(self).layer_seq().len() >= 1 && !(info.input_dims.rows
                    == info.target_dims.rows && info.input_dims.time == info.target_dims.time)
                    ==> r == Err::<Vec<Ratio>, HALError>(HALError::ShapeMismatch)
                    && final(self).store() == old(self).store()
                    && final(self).opt_iterations() == old(self).opt_iterations()
                    && final(self).opt_vel() == old(self).opt_vel()
            }),
            ({
                let info = old(source).spec_info();
                old(self).layer_seq().len() >= 1 && info.input_dims.rows == info.target_dims.rows
                    && info.input_dims.time == info.target_dims.time && epochs * (info.num_samples
                    / batch_size) == 0 ==> r is Ok
            }),
            r is Ok ==> final(self).opt_iterations() == old(self).opt_iterations() + epochs * (
            old(source).spec_info().num_samples / batch_size),
            r is Err ==> r->Err_0 == HALError::NoLayers || r->Err_0 == HALError::ShapeMismatch
                || r->Err_0 == HALError::Overflow || r->Err_0 == HALError::UnknownActivation
                || r->Err_0 == HALError::UnknownLoss,
    {
        if self.layers.len() == 0 {
            return Err(HALError::NoLayers);
        }
        let data_params = source.info();
        let idims = data_params.input_dims;
        let tdims = data_params.target_dims;
        if !(idims.rows == tdims.rows && idims.time == tdims.time) {
            return Err(HALError::ShapeMismatch);
        }
        let iters = data_params.num_samples / batch_size;
        let mut lossvec: Vec<Ratio> = Vec::new();
        let mut epoch: u64 = 0;
        while epoch < epochs
            invariant
                old(self).wf(),
                self.wf(),
                1 <= batch_size <= DIM_MAX as u64,
                self.layers@ == old(self).layer_seq(),
                self.loss@ == old(self).loss_name(),
                self.optimizer.lr() == old(self).opt_lr(),
                self.optimizer.mom() == old(self).opt_mom(),
                self.optimizer.dec() == old(self).opt_dec(),
                iters == old(source).spec_info().num_samples / batch_size,
                old(source).spec_info().input_dims.rows == old(source).spec_info().target_dims.rows,
                old(source).spec_info().input_dims.time == old(source).spec_info().target_dims.time,
                old(self).layer_seq().len() >= 1,
                epoch <= epochs,
                self.optimizer.iterations_spec() == old(self).opt_iterations() + epoch * iters,
            decreases epochs - epoch,
        {
            let mut it: u64 = 0;
            while it < iters
                invariant
                    old(self).wf(),
                    self.wf(),
                    1 <= batch_size <= DIM_MAX as u64,
                    self.layers@ == old(self).layer_seq(),
                    self.loss@ == old(self).loss_name(),
                    self.optimizer.lr() == old(self).opt_lr(),
                    self.optimizer.mom() == old(self).opt_mom(),
                    self.optimizer.dec() == old(self).opt_dec(),
                    iters == old(source).spec_info().num_samples / batch_size,
                    old(source).spec_info().input_dims.rows == old(
                        source,
                    ).spec_info().target_dims.rows,
                    old(source).spec_info().input_dims.time == old(
                        source,
                    ).spec_info().target_dims.time,
                    old(self).layer_seq().len() >= 1,
                    epoch < epochs,
                    it <= iters,
                    self.optimizer.iterations_spec() == old(self).opt_iterations() + epoch * iters
                        + it,
                decreases iters - it,
            {
                proof {
                    assert(epochs as int * (iters as int) >= 1) by (nonlinear_arith)
                        requires
                            epochs >= 1,
                            iters >= 1,
                    ;
                }
                let minibatch = source.get_train_iter(batch_size);
                let input = minibatch.input;
                let target = minibatch.target;
                if (input.dims.rows as u64) != batch_size {
                    return Err(HALError::ShapeMismatch);
                }
                if (target.dims.rows as u64) != batch_size {
                    return Err(HALError::ShapeMismatch);
                }
                let mut current = match self.train_step(&input, &target, loss_indices, batch_size) {
                    Ok(l) => l,
                    Err(e) => {
                        return Err(e);
                    },
                };
                lossvec.append(&mut current);
                it += 1;
            }
            proof {
                assert((epoch + 1) * iters == epoch * iters + iters) by (nonlinear_arith);
            }
            epoch += 1;
        }
        Ok(lossvec)
    }
}

/// The view of an optional loss mask.
pub open spec fn mask_view(mask: Option<&Vec<bool>>) -> Option<Seq<bool>> {
    match mask {
        Some(m) => Some(m@),
        None => None,
    }
}

} // verus!
