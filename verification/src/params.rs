use vstd::prelude::*;

use crate::error::HALError;
use crate::initializations::get_initialization;
use crate::initializations::init_known;
use crate::initializations::init_name_known;
use crate::initializations::INIT_MAX;
use crate::tensor;
use crate::tensor::elem_ok;
use crate::tensor::sv_add;
use crate::tensor::sv_add_fits;
use crate::tensor::sv_const;
use crate::tensor::Dims;
use crate::tensor::Tensor;
use crate::tensor::TensorView;
use crate::tensor::COUNT_MAX;
use crate::tensor::DIM_MAX;
use vstd::pervasive::unreached;

verus! {

/// Largest number of layers a store may hold.
pub const LAYER_MAX: usize = 0x1000;

/// Largest number of weight tensors, and of bias tensors, in one bundle.
pub const SLOT_MAX: usize = 0x1000;

/// Mathematical contents of one layer's parameter bundle.
#[verifier::ext_equal]
pub struct BundleView {
    pub weights: Seq<TensorView>,
    pub biases: Seq<TensorView>,
    pub deltas: Seq<TensorView>,
    pub activations: Seq<Seq<char>>,
    pub inputs: Seq<TensorView>,
    pub outputs: Seq<TensorView>,
    pub cur: nat,
}

impl BundleView {
    /// The bundle invariant: one gradient per weight and bias, in
    /// `[weights..., biases...]` order and shape-matched to its parameter;
    /// cached inputs and outputs paired; the unroll cursor inside the caches.
    pub open spec fn wf(self) -> bool {
        &&& forall|i: int| 0 <= i < self.weights.len() ==> (#[trigger] self.weights[i]).wf()
        &&& forall|i: int| 0 <= i < self.biases.len() ==> (#[trigger] self.biases[i]).wf()
        &&& forall|i: int| 0 <= i < self.deltas.len() ==> (#[trigger] self.deltas[i]).wf()
        &&& forall|i: int| 0 <= i < self.inputs.len() ==> (#[trigger] self.inputs[i]).wf()
        &&& forall|i: int| 0 <= i < self.outputs.len() ==> (#[trigger] self.outputs[i]).wf()
        &&& self.deltas.len() == self.weights.len() + self.biases.len()
        &&& forall|i: int|
            0 <= i < self.weights.len() ==> (#[trigger] self.weights[i]).same_shape(
                self.deltas[i],
            )
        &&& forall|i: int|
            0 <= i < self.biases.len() ==> (#[trigger] self.biases[i]).same_shape(
                self.deltas[self.weights.len() + i],
            )
        &&& self.weights.len() <= SLOT_MAX
        &&& self.biases.len() <= SLOT_MAX
        &&& self.inputs.len() == self.outputs.len()
        &&& self.inputs.len() <= DIM_MAX
        &&& self.cur <= self.inputs.len()
    }

    /// Number of learnable tensors in this bundle.
    pub open spec fn slot_count(self) -> int {
        self.weights.len() as int + self.biases.len() as int
    }

    /// Learnable tensor `i` of this bundle, weights first, then biases.
    pub open spec fn slot(self, i: int) -> TensorView {
        if i < self.weights.len() {
            self.weights[i]
        } else {
            self.biases[i - self.weights.len()]
        }
    }

    /// Gradient tensor `i`, aligned with `slot(i)`.
    pub open spec fn grad(self, i: int) -> TensorView {
        self.deltas[i]
    }
}

/// A bundle after one forward pass is cached: the input/output pair is
/// written at the cursor (overwriting while earlier steps are still cached,
/// appending past the end) and the cursor advances.
pub open spec fn recorded(b: BundleView, input: TensorView, output: TensorView) -> BundleView {
    BundleView {
        inputs: if b.cur < b.inputs.len() {
            b.inputs.update(b.cur as int, input)
        } else {
            b.inputs.push(input)
        },
        outputs: if b.cur < b.outputs.len() {
            b.outputs.update(b.cur as int, output)
        } else {
            b.outputs.push(output)
        },
        cur: (b.cur + 1) as nat,
        ..b
    }
}

/// The shape a dense layer's bundle keeps throughout training: one weight
/// matrix `[input, output]` with its gradient first, one bias column
/// `[output, 1]` with its gradient second, one activation name, and every
/// cached pair a matrix batch of `input` columns in and `output` columns out.
pub open spec fn dense_shaped(b: BundleView, input_size: int, output_size: int) -> bool {
    &&& b.wf()
    &&& b.weights.len() == 1
    &&& b.biases.len() == 1
    &&& b.deltas.len() == 2
    &&& b.activations.len() == 1
    &&& b.weights[0].rows == input_size
    &&& b.weights[0].cols == output_size
    &&& b.weights[0].is_matrix()
    &&& b.biases[0].rows == output_size
    &&& b.biases[0].cols == 1
    &&& b.biases[0].is_matrix()
    &&& (forall|s: int|
        0 <= s < b.inputs.len() ==> (#[trigger] b.inputs[s]).cols == input_size
            && b.inputs[s].is_matrix() && b.outputs[s].cols == output_size
            && b.outputs[s].is_matrix() && b.outputs[s].rows == b.inputs[s].rows)
}

/// Every bundle of the store well formed.
pub open spec fn store_wf(store: Seq<BundleView>) -> bool {
    forall|l: int| 0 <= l < store.len() ==> (#[trigger] store[l]).wf()
}

/// Number of learnable tensors in bundles `l` through the end of `store`.
pub open spec fn flat_count_from(store: Seq<BundleView>, l: int) -> int
    decreases store.len() - l,
{
    if l < 0 || l >= store.len() {
        0
    } else {
        store[l].slot_count() + flat_count_from(store, l + 1)
    }
}

/// The flattened parameter count of the whole store: parameters are indexed
/// linearly in `[layer0.weights, layer0.biases, layer1.weights, ...]` order.
pub open spec fn flat_count(store: Seq<BundleView>) -> int {
    flat_count_from(store, 0)
}

/// The parameter at flat position `ind`, counting from bundle `l` on.
pub open spec fn flat_get_from(store: Seq<BundleView>, l: int, ind: int) -> TensorView
    decreases store.len() - l,
{
    if l < 0 || l >= store.len() {
        TensorView { rows: 0, cols: 0, time: 0, data: Seq::empty() }
    } else if ind < store[l].slot_count() {
        store[l].slot(ind)
    } else {
        flat_get_from(store, l + 1, ind - store[l].slot_count())
    }
}

/// The parameter at flat position `ind` of the whole store.
pub open spec fn flat_get(store: Seq<BundleView>, ind: int) -> TensorView {
    flat_get_from(store, 0, ind)
}

/// The gradient aligned with flat position `ind`, counting from bundle `l`.
pub open spec fn flat_grad_from(store: Seq<BundleView>, l: int, ind: int) -> TensorView
    decreases store.len() - l,
{
    if l < 0 || l >= store.len() {
        TensorView { rows: 0, cols: 0, time: 0, data: Seq::empty() }
    } else if ind < store[l].slot_count() {
        store[l].grad(ind)
    } else {
        flat_grad_from(store, l + 1, ind - store[l].slot_count())
    }
}

/// The gradient aligned with flat position `ind` of the whole store.
pub open spec fn flat_grad(store: Seq<BundleView>, ind: int) -> TensorView {
    flat_grad_from(store, 0, ind)
}

/// The bundle with learnable slot `i` replaced.
pub open spec fn bundle_set(b: BundleView, i: int, t: TensorView) -> BundleView {
    if i < b.weights.len() {
        BundleView { weights: b.weights.update(i, t), ..b }
    } else {
        BundleView { biases: b.biases.update(i - b.weights.len(), t), ..b }
    }
}

/// The store with the parameter at flat position `ind` replaced, counting
/// from bundle `l` on.
pub open spec fn flat_set_from(store: Seq<BundleView>, l: int, ind: int, t: TensorView) -> Seq<
    BundleView,
>
    decreases store.len() - l,
{
    if l < 0 || l >= store.len() {
        store
    } else if ind < store[l].slot_count() {
        store.update(l, bundle_set(store[l], ind, t))
    } else {
        flat_set_from(store, l + 1, ind - store[l].slot_count(), t)
    }
}

/// The store with the parameter at flat position `ind` replaced.
pub open spec fn flat_set(store: Seq<BundleView>, ind: int, t: TensorView) -> Seq<BundleView> {
    flat_set_from(store, 0, ind, t)
}

/// Remaining slot counts never go negative.
pub proof fn lemma_flat_count_nonneg(store: Seq<BundleView>, l: int)
    ensures
        flat_count_from(store, l) >= 0,
    decreases store.len() - l,
{
    if 0 <= l && l < store.len() {
        lemma_flat_count_nonneg(store, l + 1);
    }
}

/// Writing back the parameter read at a flat position leaves the store
/// unchanged: the flattened indexing round-trips.
pub proof fn lemma_flat_round_trip_from(store: Seq<BundleView>, l: int, ind: int)
    requires
        0 <= l <= store.len(),
        0 <= ind < flat_count_from(store, l),
    ensures
        flat_set_from(store, l, ind, flat_get_from(store, l, ind)) == store,
    decreases store.len() - l,
{
    lemma_flat_count_nonneg(store, l + 1);
    let b = store[l];
    if ind < b.slot_count() {
        let t = b.slot(ind);
        if ind < b.weights.len() {
            assert(b.weights.update(ind, t) =~= b.weights);
            assert(bundle_set(b, ind, t) =~~= b);
        } else {
            assert(b.biases.update(ind - b.weights.len(), t) =~= b.biases);
            assert(bundle_set(b, ind, t) =~~= b);
        }
        assert(store.update(l, bundle_set(b, ind, t)) =~= store);
    } else {
        lemma_flat_round_trip_from(store, l + 1, ind - b.slot_count());
    }
}

/// The round-trip law over the whole store: for every flat index, setting a
/// parameter to the value just read there is the identity.
pub proof fn lemma_flat_round_trip(store: Seq<BundleView>, ind: int)
    requires
        0 <= ind < flat_count(store),
    ensures
        flat_set(store, ind, flat_get(store, ind)) == store,
{
    lemma_flat_round_trip_from(store, 0, ind);
}

/// A flat write touches one weight or bias and nothing else: gradients,
/// caches, activation names, cursors, and every other flat position read
/// back unchanged.
pub proof fn lemma_flat_set_effect_from(store: Seq<BundleView>, l: int, ind: int, t: TensorView)
    requires
        0 <= l <= store.len(),
        0 <= ind < flat_count_from(store, l),
    ensures
        ({
            let s2 = flat_set_from(store, l, ind, t);
            &&& s2.len() == store.len()
            &&& forall|l2: int|
                0 <= l2 < store.len() ==> {
                    let b2 = #[trigger] s2[l2];
                    let b1 = store[l2];
                    b2.deltas == b1.deltas && b2.activations == b1.activations && b2.inputs
                        == b1.inputs && b2.outputs == b1.outputs && b2.cur == b1.cur
                        && b2.weights.len() == b1.weights.len() && b2.biases.len()
                        == b1.biases.len()
                }
            &&& forall|l2: int| 0 <= l2 < l ==> s2[l2] == #[trigger] store[l2]
            &&& forall|p: int|
                0 <= p < flat_count_from(store, l) && p != ind ==> flat_get_from(s2, l, p)
                    == #[trigger] flat_get_from(store, l, p)
            &&& flat_get_from(s2, l, ind) == t
            &&& forall|p: int|
                0 <= p < flat_count_from(store, l) ==> flat_grad_from(s2, l, p)
                    == #[trigger] flat_grad_from(store, l, p)
            &&& flat_count_from(s2, l) == flat_count_from(store, l)
        }),
    decreases store.len() - l,
{
    lemma_flat_count_nonneg(store, l + 1);
    let s2 = flat_set_from(store, l, ind, t);
    let b = store[l];
    let sc = b.slot_count();
    if ind < sc {
        assert(s2 == store.update(l, bundle_set(b, ind, t)));
        assert(s2[l].slot_count() == sc);
        lemma_flat_tail_unchanged(store, s2, l + 1, 0);
        assert(flat_count_from(s2, l) == flat_count_from(store, l));
        assert(flat_get_from(s2, l, ind) == t);
        assert forall|p: int|
            0 <= p < flat_count_from(store, l) && p != ind implies flat_get_from(s2, l, p)
            == #[trigger] flat_get_from(store, l, p) by {
            if p < sc {
                assert(flat_get_from(s2, l, p) == s2[l].slot(p));
                assert(flat_get_from(store, l, p) == b.slot(p));
                if ind < b.weights.len() {
                    assert(s2[l].biases == b.biases);
                    assert(s2[l].slot(p) == b.slot(p));
                } else {
                    assert(s2[l].weights == b.weights);
                    assert(s2[l].slot(p) == b.slot(p));
                }
            } else {
                lemma_flat_tail_unchanged(store, s2, l + 1, p - sc);
                assert(flat_get_from(s2, l, p) == flat_get_from(s2, l + 1, p - sc));
                assert(flat_get_from(store, l, p) == flat_get_from(store, l + 1, p - sc));
            }
        }
        assert forall|p: int| 0 <= p < flat_count_from(store, l) implies flat_grad_from(s2, l, p)
            == #[trigger] flat_grad_from(store, l, p) by {
            if p < sc {
                assert(flat_grad_from(s2, l, p) == s2[l].grad(p));
                assert(flat_grad_from(store, l, p) == b.grad(p));
                assert(s2[l].deltas == b.deltas);
            } else {
                lemma_flat_tail_unchanged(store, s2, l + 1, p - sc);
                assert(flat_grad_from(s2, l, p) == flat_grad_from(s2, l + 1, p - sc));
                assert(flat_grad_from(store, l, p) == flat_grad_from(store, l + 1, p - sc));
            }
        }
    } else {
        lemma_flat_set_effect_from(store, l + 1, ind - sc, t);
        assert(s2[l] == store[l]);
        assert(s2[l].slot_count() == sc);
        assert(flat_count_from(s2, l) == flat_count_from(store, l));
        assert(flat_get_from(s2, l, ind) == flat_get_from(s2, l + 1, ind - sc));
        assert forall|p: int|
            0 <= p < flat_count_from(store, l) && p != ind implies flat_get_from(s2, l, p)
            == #[trigger] flat_get_from(store, l, p) by {
            if p < sc {
                assert(flat_get_from(s2, l, p) == s2[l].slot(p));
                assert(flat_get_from(store, l, p) == store[l].slot(p));
            } else {
                assert(flat_get_from(s2, l, p) == flat_get_from(s2, l + 1, p - sc));
                assert(flat_get_from(store, l, p) == flat_get_from(store, l + 1, p - sc));
            }
        }
        assert forall|p: int| 0 <= p < flat_count_from(store, l) implies flat_grad_from(s2, l, p)
            == #[trigger] flat_grad_from(store, l, p) by {
            if p < sc {
                assert(flat_grad_from(s2, l, p) == s2[l].grad(p));
                assert(flat_grad_from(store, l, p) == store[l].grad(p));
            } else {
                assert(flat_grad_from(s2, l, p) == flat_grad_from(s2, l + 1, p - sc));
                assert(flat_grad_from(store, l, p) == flat_grad_from(store, l + 1, p - sc));
            }
        }
    }
}

/// Two stores equal from bundle `l` on agree on every flat read from `l`.
proof fn lemma_flat_tail_unchanged(s1: Seq<BundleView>, s2: Seq<BundleView>, l: int, ind: int)
    requires
        s1.len() == s2.len(),
        forall|l2: int| l <= l2 < s1.len() ==> s2[l2] == #[trigger] s1[l2],
    ensures
        flat_get_from(s2, l, ind) == flat_get_from(s1, l, ind),
        flat_grad_from(s2, l, ind) == flat_grad_from(s1, l, ind),
        flat_count_from(s2, l) == flat_count_from(s1, l),
    decreases s1.len() - l,
{
    if 0 <= l && l < s1.len() {
        lemma_flat_tail_unchanged(s1, s2, l + 1, ind - s1[l].slot_count());
    }
}

/// The learnable state of one layer: weight and bias tensors, one
/// accumulated gradient per parameter in `[weights..., biases...]` order, the
/// activation name per weight/bias pair, and the cached input/output pair of
/// each unroll step, written at `current_unroll`.
#[derive(Debug)]
pub struct Params {
    pub weights: Vec<Tensor>,
    pub biases: Vec<Tensor>,
    pub deltas: Vec<Tensor>,
    pub activations: Vec<String>,
    pub inputs: Vec<Tensor>,
    pub outputs: Vec<Tensor>,
    pub current_unroll: usize,
}

impl View for Params {
    type V = BundleView;

    open spec fn view(&self) -> BundleView {
        BundleView {
            weights: self.weights@.map_values(|t: Tensor| t@),
            biases: self.biases@.map_values(|t: Tensor| t@),
            deltas: self.deltas@.map_values(|t: Tensor| t@),
            activations: self.activations@.map_values(|s: String| s@),
            inputs: self.inputs@.map_values(|t: Tensor| t@),
            outputs: self.outputs@.map_values(|t: Tensor| t@),
            cur: self.current_unroll as nat,
        }
    }
}

impl Params {
    /// Caches the input/output pair of one forward call: overwrites at the
    /// cursor while earlier unroll steps are still cached, appends past the
    /// end, and advances the cursor either way.
    pub fn record_forward(&mut self, input: Tensor, output: Tensor)
        requires
            old(self)@.wf(),
            input.wf(),
            output.wf(),
            old(self)@.cur < DIM_MAX,
        ensures
            final(self)@.wf(),
            final(self)@.cur == old(self)@.cur + 1,
            final(self)@ == recorded(old(self)@, input@, output@),
    {
        let cur = self.current_unroll;
        if cur < self.inputs.len() {
            self.inputs[cur] = input;
            self.outputs[cur] = output;
        } else {
            self.inputs.push(input);
            self.outputs.push(output);
        }
        self.current_unroll = cur + 1;
        proof {
            assert(final(self)@.inputs =~= recorded(old(self)@, input@, output@).inputs);
            assert(final(self)@.outputs =~= recorded(old(self)@, input@, output@).outputs);
            assert(final(self)@ =~~= recorded(old(self)@, input@, output@));
        }
    }

    /// Element-wise adds `t` into gradient slot `i`: accumulation, never
    /// replacement, so that several backward calls within one optimizer step
    /// contribute to the same parameter.
    pub fn accumulate_delta(&mut self, i: usize, t: &Tensor) -> (r: Result<(), HALError>)
        requires
            old(self)@.wf(),
            t.wf(),
            i < old(self)@.deltas.len(),
            t@.same_shape(old(self)@.deltas[i as int]),
        ensures
            r is Ok <==> sv_add_fits(old(self)@.deltas[i as int], t@),
            r is Ok ==> final(self)@ == (BundleView {
                deltas: old(self)@.deltas.update(
                    i as int,
                    sv_add(old(self)@.deltas[i as int], t@),
                ),
                ..old(self)@
            }),
            r is Ok ==> final(self)@.wf(),
            r is Err ==> r->Err_0 == HALError::Overflow && final(self)@ == old(self)@,
    {
        proof {
            assert(self@.deltas[i as int] == self.deltas@[i as int]@);
        }
        let s = match tensor::add(&self.deltas[i], t) {
            Ok(s) => s,
            Err(e) => {
                return Err(e);
            },
        };
        self.deltas[i] = s;
        proof {
            assert(final(self)@.deltas =~= old(self)@.deltas.update(
                i as int,
                sv_add(old(self)@.deltas[i as int], t@),
            ));
            assert(final(self)@ == (BundleView { deltas: final(self)@.deltas, ..old(self)@ }));
        }
        Ok(())
    }
}

/// At every flat position the accumulated gradient is well formed and shaped
/// exactly like its parameter.
pub proof fn lemma_flat_grad_shape(store: Seq<BundleView>, l: int, ind: int)
    requires
        store_wf(store),
        0 <= l <= store.len(),
        0 <= ind < flat_count_from(store, l),
    ensures
        flat_grad_from(store, l, ind).wf(),
        flat_get_from(store, l, ind).wf(),
        flat_grad_from(store, l, ind).same_shape(flat_get_from(store, l, ind)),
    decreases store.len() - l,
{
    lemma_flat_count_nonneg(store, l + 1);
    let b = store[l];
    assert(b.wf());
    if ind < b.slot_count() {
        if ind < b.weights.len() {
            assert(b.weights[ind].same_shape(b.deltas[ind]));
        } else {
            let bi = ind - b.weights.len();
            assert(b.biases[bi].same_shape(b.deltas[b.weights.len() + bi]));
        }
    } else {
        lemma_flat_grad_shape(store, l + 1, ind - b.slot_count());
    }
}

/// A bundle with every gradient reset to zero, shapes kept.
pub open spec fn zero_bundle(b: BundleView) -> BundleView {
    BundleView {
        deltas: Seq::new(
            b.deltas.len(),
            |i: int| sv_const(b.deltas[i].rows, b.deltas[i].cols, b.deltas[i].time, 0),
        ),
        ..b
    }
}

/// A store with every gradient of every bundle reset to zero.
pub open spec fn zero_store(store: Seq<BundleView>) -> Seq<BundleView> {
    Seq::new(store.len(), |l: int| zero_bundle(store[l]))
}

/// Zeroing the gradients yields, at every flat position, an all-zero tensor
/// of the original gradient's shape, and leaves every parameter in place.
pub proof fn lemma_zero_store_flat(store: Seq<BundleView>, l: int, p: int)
    requires
        store_wf(store),
        0 <= l <= store.len(),
        0 <= p < flat_count_from(store, l),
    ensures
        flat_count_from(zero_store(store), l) == flat_count_from(store, l),
        flat_get_from(zero_store(store), l, p) == flat_get_from(store, l, p),
        ({
            let g = flat_grad_from(store, l, p);
            flat_grad_from(zero_store(store), l, p) == sv_const(g.rows, g.cols, g.time, 0)
        }),
    decreases store.len() - l,
{
    let z = zero_store(store);
    lemma_flat_count_nonneg(store, l + 1);
    assert(z[l].slot_count() == store[l].slot_count());
    if p < store[l].slot_count() {
        lemma_zero_count(store, l + 1);
        assert(store[l].wf());
        assert(z[l] == zero_bundle(store[l]));
        assert(flat_grad_from(z, l, p) == z[l].grad(p));
        assert(flat_grad_from(store, l, p) == store[l].grad(p));
        assert(z[l].deltas[p] == sv_const(
            store[l].deltas[p].rows,
            store[l].deltas[p].cols,
            store[l].deltas[p].time,
            0,
        ));
        assert(flat_get_from(z, l, p) == z[l].slot(p));
        assert(flat_get_from(store, l, p) == store[l].slot(p));
    } else {
        lemma_zero_store_flat(store, l + 1, p - store[l].slot_count());
        assert(flat_grad_from(z, l, p) == flat_grad_from(z, l + 1, p - store[l].slot_count()));
        assert(flat_get_from(z, l, p) == flat_get_from(z, l + 1, p - store[l].slot_count()));
    }
}

/// Zeroing the gradients keeps the flat parameter count.
pub proof fn lemma_zero_count(store: Seq<BundleView>, l: int)
    ensures
        flat_count_from(zero_store(store), l) == flat_count_from(store, l),
    decreases store.len() - l,
{
    if 0 <= l && l < store.len() {
        lemma_zero_count(store, l + 1);
    }
}

/// Replacing a parameter with one of the same shape keeps every bundle well
/// formed.
pub proof fn lemma_flat_set_wf(store: Seq<BundleView>, l: int, ind: int, t: TensorView)
    requires
        store_wf(store),
        0 <= l <= store.len(),
        0 <= ind < flat_count_from(store, l),
        t.wf(),
        t.same_shape(flat_get_from(store, l, ind)),
    ensures
        store_wf(flat_set_from(store, l, ind, t)),
        ({
            let s2 = flat_set_from(store, l, ind, t);
            &&& (forall|l2: int, w: int|
                0 <= l2 < store.len() && 0 <= w < store[l2].weights.len() ==> (
                #[trigger] s2[l2].weights[w]).same_shape(store[l2].weights[w]))
            &&& (forall|l2: int, w: int|
                0 <= l2 < store.len() && 0 <= w < store[l2].biases.len() ==> (
                #[trigger] s2[l2].biases[w]).same_shape(store[l2].biases[w]))
        }),
    decreases store.len() - l,
{
    lemma_flat_count_nonneg(store, l + 1);
    let s2 = flat_set_from(store, l, ind, t);
    let b = store[l];
    if ind < b.slot_count() {
        let b2 = bundle_set(b, ind, t);
        assert(b2.wf()) by {
            if ind < b.weights.len() {
                assert forall|i: int| 0 <= i < b2.weights.len() implies (
                #[trigger] b2.weights[i]).wf() by {
                    if i != ind {
                        assert(b2.weights[i] == b.weights[i]);
                    }
                }
                assert forall|i: int| 0 <= i < b2.weights.len() implies (
                #[trigger] b2.weights[i]).same_shape(b2.deltas[i]) by {
                    if i != ind {
                        assert(b2.weights[i] == b.weights[i]);
                    }
                }
            } else {
                let bi = ind - b.weights.len();
                assert forall|i: int| 0 <= i < b2.biases.len() implies (
                #[trigger] b2.biases[i]).wf() by {
                    if i != bi {
                        assert(b2.biases[i] == b.biases[i]);
                    }
                }
                assert forall|i: int| 0 <= i < b2.biases.len() implies (
                #[trigger] b2.biases[i]).same_shape(b2.deltas[b2.weights.len() + i]) by {
                    if i != bi {
                        assert(b2.biases[i] == b.biases[i]);
                    }
                }
            }
        }
        assert forall|l2: int| 0 <= l2 < s2.len() implies (#[trigger] s2[l2]).wf() by {
            if l2 != l {
                assert(s2[l2] == store[l2]);
            }
        }
    } else {
        lemma_flat_set_wf(store, l + 1, ind - b.slot_count(), t);
    }
}

/// The flat parameter count is bounded by the store caps.
pub proof fn lemma_flat_count_cap(store: Seq<BundleView>, l: int)
    requires
        store_wf(store),
        0 <= l <= store.len(),
        store.len() <= LAYER_MAX,
    ensures
        flat_count_from(store, l) <= (store.len() - l) * (2 * SLOT_MAX),
    decreases store.len() - l,
{
    if l < store.len() {
        lemma_flat_count_cap(store, l + 1);
        assert(store[l].wf());
        assert((store.len() - l) * (2 * SLOT_MAX) == (store.len() - (l + 1)) * (2 * SLOT_MAX) + 2
            * SLOT_MAX) by (nonlinear_arith);
    }
}

/// The parameter store: one bundle per layer, in model order, never removed.
/// The flattened view `[layer0.weights, layer0.biases, layer1.weights, ...]`
/// is the order the optimizer indexes parameters by; it is an invariant of
/// this type, not an incidental detail.
#[derive(Debug)]
pub struct ParamManager {
    pub layer_storage: Vec<Params>,
}

impl View for ParamManager {
    type V = Seq<BundleView>;

    open spec fn view(&self) -> Seq<BundleView> {
        self.layer_storage@.map_values(|p: Params| p@)
    }
}

impl Default for ParamManager {
    /// An empty store.
    fn default() -> (r: ParamManager)
        ensures
            r@.len() == 0,
            r.wf(),
    {
        ParamManager { layer_storage: Vec::new() }
    }
}

impl ParamManager {
    /// The store invariant: every bundle well formed, the layer count capped.
    pub open spec fn wf(self) -> bool {
        store_wf(self@) && self@.len() <= LAYER_MAX
    }

    /// Number of layers with a bundle in the store.
    pub fn num_layers(&self) -> (n: usize)
        ensures
            n == self@.len(),
    {
        self.layer_storage.len()
    }

    /// Borrows the bundle of layer `layer_index`.
    pub fn get_params(&self, layer_index: usize) -> (r: Result<&Params, HALError>)
        ensures
            r is Ok <==> layer_index < self@.len(),
            r is Ok ==> r->Ok_0@ == self@[layer_index as int],
            r is Err ==> r->Err_0 == HALError::IndexOutOfRange,
    {
        if layer_index >= self.layer_storage.len() {
            return Err(HALError::IndexOutOfRange);
        }
        Ok(&self.layer_storage[layer_index])
    }

    /// Number of weight tensors of layer `layer_index`.
    pub fn num_weights(&self, layer_index: usize) -> (n: usize)
        requires
            layer_index < self@.len(),
        ensures
            n == self@[layer_index as int].weights.len(),
    {
        self.layer_storage[layer_index].weights.len()
    }

    /// Number of bias tensors of layer `layer_index`.
    pub fn num_biases(&self, layer_index: usize) -> (n: usize)
        requires
            layer_index < self@.len(),
        ensures
            n == self@[layer_index as int].biases.len(),
    {
        self.layer_storage[layer_index].biases.len()
    }

    /// Number of learnable tensors of layer `layer_index`.
    pub fn num_arrays(&self, layer_index: usize) -> (n: usize)
        requires
            self.wf(),
            layer_index < self@.len(),
        ensures
            n == self@[layer_index as int].slot_count(),
    {
        proof {
            assert(self@[layer_index as int].wf());
        }
        self.num_weights(layer_index) + self.num_biases(layer_index)
    }

    /// The flattened parameter count from layer `l` on.
    fn count_from(&self, l: usize) -> (n: usize)
        requires
            self.wf(),
            l <= self@.len(),
        ensures
            n == flat_count_from(self@, l as int),
        decreases self@.len() - l,
    {
        proof {
            lemma_flat_count_cap(self@, l as int);
            lemma_flat_count_nonneg(self@, l as int + 1);
        }
        if l == self.layer_storage.len() {
            0
        } else {
            proof {
                assert(self@[l as int].wf());
                lemma_flat_count_cap(self@, l as int + 1);
            }
            let here = self.num_weights(l) + self.num_biases(l);
            let rest = self.count_from(l + 1);
            here + rest
        }
    }

    /// Total number of learnable tensors across the whole model, in the
    /// flattened `[layer0.weights, layer0.biases, layer1.weights, ...]`
    /// order.
    pub fn flattened_parameter_count(&self) -> (n: usize)
        requires
            self.wf(),
        ensures
            n == flat_count(self@),
    {
        self.count_from(0)
    }

    /// The parameter at flat position `ind`, from layer `l` on.
    fn get_flat_from(&self, l: usize, ind: usize) -> (r: Result<Tensor, HALError>)
        requires
            self.wf(),
            l <= self@.len(),
        ensures
            r is Ok <==> ind < flat_count_from(self@, l as int),
            r is Ok ==> r->Ok_0.wf() && r->Ok_0@ == flat_get_from(self@, l as int, ind as int),
            r is Err ==> r->Err_0 == HALError::IndexOutOfRange,
        decreases self@.len() - l,
    {
        proof {
            lemma_flat_count_nonneg(self@, l as int + 1);
        }
        if l == self.layer_storage.len() {
            return Err(HALError::IndexOutOfRange);
        }
        proof {
            assert(self@[l as int].wf());
        }
        let wlen = self.num_weights(l);
        let blen = self.num_biases(l);
        if ind < wlen {
            proof {
                assert(self@[l as int].weights[ind as int] == self.layer_storage@[l as int].weights@[ind as int]@);
            }
            Ok(self.layer_storage[l].weights[ind].duplicate())
        } else if ind - wlen < blen {
            proof {
                assert(self@[l as int].biases[ind - wlen] == self.layer_storage@[l as int].biases@[ind - wlen]@);
            }
            Ok(self.layer_storage[l].biases[ind - wlen].duplicate())
        } else {
            self.get_flat_from(l + 1, ind - (wlen + blen))
        }
    }

    /// A copy of the parameter at flat position `ind` of the flattened
    /// ordering. Fails with `IndexOutOfRange` exactly when `ind` is past the
    /// flattened parameter count.
    pub fn get_array_from_index(&self, ind: usize) -> (r: Result<Tensor, HALError>)
        requires
            self.wf(),
        ensures
            r is Ok <==> ind < flat_count(self@),
            r is Ok ==> r->Ok_0.wf() && r->Ok_0@ == flat_get(self@, ind as int),
            r is Err ==> r->Err_0 == HALError::IndexOutOfRange,
    {
        self.get_flat_from(0, ind)
    }

    /// A copy of the accumulated gradient aligned with flat position `ind`.
    fn get_grad_flat_from(&self, l: usize, ind: usize) -> (r: Result<Tensor, HALError>)
        requires
            self.wf(),
            l <= self@.len(),
        ensures
            r is Ok <==> ind < flat_count_from(self@, l as int),
            r is Ok ==> r->Ok_0.wf() && r->Ok_0@ == flat_grad_from(self@, l as int, ind as int),
            r is Err ==> r->Err_0 == HALError::IndexOutOfRange,
        decreases self@.len() - l,
    {
        proof {
            lemma_flat_count_nonneg(self@, l as int + 1);
        }
        if l == self.layer_storage.len() {
            return Err(HALError::IndexOutOfRange);
        }
        proof {
            assert(self@[l as int].wf());
        }
        let wlen = self.num_weights(l);
        let blen = self.num_biases(l);
        if ind < wlen + blen {
            proof {
                assert(self@[l as int].deltas[ind as int] == self.layer_storage@[l as int].deltas@[ind as int]@);
            }
            Ok(self.layer_storage[l].deltas[ind].duplicate())
        } else {
            self.get_grad_flat_from(l + 1, ind - (wlen + blen))
        }
    }

    /// A copy of the accumulated gradient aligned with flat position `ind`.
    pub fn get_gradient_from_index(&self, ind: usize) -> (r: Result<Tensor, HALError>)
        requires
            self.wf(),
        ensures
            r is Ok <==> ind < flat_count(self@),
            r is Ok ==> r->Ok_0.wf() && r->Ok_0@ == flat_grad(self@, ind as int),
            r is Err ==> r->Err_0 == HALError::IndexOutOfRange,
    {
        self.get_grad_flat_from(0, ind)
    }

    /// Writes `arr` into the parameter at flat position `ind`, from layer `l`
    /// on.
    fn set_flat_from(&mut self, l: usize, ind: usize, arr: Tensor) -> (r: Result<(), HALError>)
        requires
            old(self).wf(),
            arr.wf(),
            l <= old(self)@.len(),
        ensures
            final(self).wf(),
            r is Ok <==> ind < flat_count_from(old(self)@, l as int) && arr@.same_shape(
                flat_get_from(old(self)@, l as int, ind as int),
            ),
            r is Ok ==> final(self)@ == flat_set_from(old(self)@, l as int, ind as int, arr@),
            r is Err ==> final(self)@ == old(self)@,
            r is Err ==> (r->Err_0 == HALError::IndexOutOfRange <==> ind >= flat_count_from(
                old(self)@,
                l as int,
            )),
            r is Err ==> r->Err_0 == HALError::IndexOutOfRange || r->Err_0
                == HALError::ShapeMismatch,
        decreases old(self)@.len() - l,
    {
        proof {
            lemma_flat_count_nonneg(old(self)@, l as int + 1);
        }
        if l == self.layer_storage.len() {
            return Err(HALError::IndexOutOfRange);
        }
        proof {
            assert(self@[l as int].wf());
        }
        let wlen = self.num_weights(l);
        let blen = self.num_biases(l);
        if ind < wlen {
            proof {
                assert(old(self)@[l as int].weights[ind as int]
                    == self.layer_storage@[l as int].weights@[ind as int]@);
                assert(flat_get_from(old(self)@, l as int, ind as int) == old(self)@[l as int].slot(
                    ind as int,
                ));
            }
            let cd = self.layer_storage[l].weights[ind].dims;
            if !(arr.dims.rows == cd.rows && arr.dims.cols == cd.cols && arr.dims.time
                == cd.time) {
                return Err(HALError::ShapeMismatch);
            }
            proof {
                lemma_flat_set_wf(old(self)@, l as int, ind as int, arr@);
            }
            let ghost arrv = arr@;
            let bundle = &mut self.layer_storage[l];
            bundle.weights[ind] = arr;
            proof {
                let so = old(self)@;
                let b2 = bundle_set(so[l as int], ind as int, arrv);
                assert(self@[l as int].weights =~= b2.weights);
                assert(self@[l as int] =~~= b2);
                assert(self@ =~~= so.update(l as int, b2));
                assert(flat_set_from(so, l as int, ind as int, arrv) == so.update(l as int, b2));
            }
            Ok(())
        } else if ind - wlen < blen {
            proof {
                assert(old(self)@[l as int].biases[ind - wlen]
                    == self.layer_storage@[l as int].biases@[ind - wlen]@);
                assert(flat_get_from(old(self)@, l as int, ind as int) == old(self)@[l as int].slot(
                    ind as int,
                ));
            }
            let cd = self.layer_storage[l].biases[ind - wlen].dims;
            if !(arr.dims.rows == cd.rows && arr.dims.cols == cd.cols && arr.dims.time
                == cd.time) {
                return Err(HALError::ShapeMismatch);
            }
            proof {
                lemma_flat_set_wf(old(self)@, l as int, ind as int, arr@);
            }
            let ghost arrv = arr@;
            let bi = ind - wlen;
            let bundle = &mut self.layer_storage[l];
            bundle.biases[bi] = arr;
            proof {
                let so = old(self)@;
                let b2 = bundle_set(so[l as int], ind as int, arrv);
                assert(self@[l as int].biases =~= b2.biases);
                assert(self@[l as int] =~~= b2);
                assert(self@ =~~= so.update(l as int, b2));
                assert(flat_set_from(so, l as int, ind as int, arrv) == so.update(l as int, b2));
            }
            Ok(())
        } else {
            let r = self.set_flat_from(l + 1, ind - (wlen + blen), arr);
            proof {
                assert(flat_count_from(old(self)@, l as int) == wlen + blen + flat_count_from(
                    old(self)@,
                    l as int + 1,
                ));
            }
            r
        }
    }

    /// Writes `arr` into the parameter at flat position `ind` of the
    /// flattened ordering, walking layers in order and consuming each
    /// layer's weight count, then its bias count. Fails with
    /// `IndexOutOfRange` exactly when `ind` is past the flattened count, and
    /// with `ShapeMismatch` when the replacement's shape differs from the
    /// parameter it would replace.
    pub fn set_array_from_index(&mut self, arr: Tensor, ind: usize) -> (r: Result<(), HALError>)
        requires
            old(self).wf(),
            arr.wf(),
        ensures
            final(self).wf(),
            r is Ok <==> ind < flat_count(old(self)@) && arr@.same_shape(
                flat_get(old(self)@, ind as int),
            ),
            r is Ok ==> final(self)@ == flat_set(old(self)@, ind as int, arr@),
            r is Err ==> final(self)@ == old(self)@,
            r is Err ==> (r->Err_0 == HALError::IndexOutOfRange <==> ind >= flat_count(
                old(self)@,
            )),
            r is Err ==> r->Err_0 == HALError::IndexOutOfRange || r->Err_0
                == HALError::ShapeMismatch,
    {
        self.set_flat_from(0, ind, arr)
    }

    /// Resets every accumulated gradient of every bundle to zero, keeping its
    /// shape; called once per optimizer update, after parameters are
    /// adjusted.
    pub fn zero_all_deltas(&mut self)
        requires
            old(self).wf(),
        ensures
            final(self).wf(),
            final(self)@ == zero_store(old(self)@),
    {
        let n = self.layer_storage.len();
        let mut l: usize = 0;
        while l < n
            invariant
                old(self).wf(),
                n == old(self)@.len(),
                self@.len() == n,
                l <= n,
                forall|l2: int| 0 <= l2 < l ==> self@[l2] == zero_bundle(#[trigger] old(self)@[l2]),
                forall|l2: int| l <= l2 < n ==> self@[l2] == #[trigger] old(self)@[l2],
            decreases n - l,
        {
            proof {
                assert(old(self)@[l as int].wf());
                assert(self@[l as int].wf());
            }
            let ghost pre = self@;
            let dn = self.layer_storage[l].deltas.len();
            let mut nd: Vec<Tensor> = Vec::new();
            let mut d: usize = 0;
            while d < dn
                invariant
                    old(self).wf(),
                    n == old(self)@.len(),
                    self@.len() == n,
                    l < n,
                    self@[l as int].wf(),
                    self@[l as int] == old(self)@[l as int],
                    dn == self@[l as int].deltas.len(),
                    d <= dn,
                    nd@.len() == d,
                    forall|d2: int|
                        0 <= d2 < d ==> (#[trigger] nd@[d2])@ == sv_const(
                            self@[l as int].deltas[d2].rows,
                            self@[l as int].deltas[d2].cols,
                            self@[l as int].deltas[d2].time,
                            0,
                        ) && nd@[d2].wf(),
                decreases dn - d,
            {
                proof {
                    assert(self@[l as int].deltas[d as int]
                        == self.layer_storage@[l as int].deltas@[d as int]@);
                    assert(self@[l as int].deltas[d as int].wf());
                }
                let t = &self.layer_storage[l].deltas[d];
                let dims = Dims {
                    rows: t.dims.rows,
                    cols: t.dims.cols,
                    time: t.dims.time,
                    extra: 1,
                };
                nd.push(crate::tensor::fill(dims, 0));
                d += 1;
            }
            let ghost ndv = nd@;
            let bundle = &mut self.layer_storage[l];
            bundle.deltas = nd;
            proof {
                assert(self@[l as int].deltas =~= zero_bundle(old(self)@[l as int]).deltas);
                assert(self@[l as int] =~~= zero_bundle(old(self)@[l as int]));
                assert forall|l2: int| 0 <= l2 < n && l2 != l as int implies self@[l2]
                    == pre[l2] by {
                    assert(self@[l2] == self.layer_storage@[l2]@);
                }
            }
            l += 1;
        }
        proof {
            assert(self@ =~~= zero_store(old(self)@));
            assert forall|l2: int| 0 <= l2 < self@.len() implies (#[trigger] self@[l2]).wf() by {
                assert(old(self)@[l2].wf());
                assert(self@[l2] == zero_bundle(old(self)@[l2]));
            }
        }
    }

    /// Element-wise adds `t` into the gradient at slot `slot` of layer
    /// `layer_index`: accumulation across backward calls, not replacement.
    pub fn accumulate_gradient(&mut self, layer_index: usize, slot: usize, t: &Tensor) -> (r:
        Result<(), HALError>)
        requires
            old(self).wf(),
            t.wf(),
            layer_index < old(self)@.len(),
            slot < old(self)@[layer_index as int].deltas.len(),
            t@.same_shape(old(self)@[layer_index as int].deltas[slot as int]),
        ensures
            final(self).wf(),
            r is Ok <==> sv_add_fits(old(self)@[layer_index as int].deltas[slot as int], t@),
            r is Ok ==> final(self)@ == old(self)@.update(
                layer_index as int,
                BundleView {
                    deltas: old(self)@[layer_index as int].deltas.update(
                        slot as int,
                        sv_add(old(self)@[layer_index as int].deltas[slot as int], t@),
                    ),
                    ..old(self)@[layer_index as int]
                },
            ),
            r is Err ==> r->Err_0 == HALError::Overflow && final(self)@ == old(self)@,
    {
        proof {
            assert(self@[layer_index as int].wf());
        }
        let bundle = &mut self.layer_storage[layer_index];
        let r = bundle.accumulate_delta(slot, t);
        proof {
            if r is Ok {
                assert(self@ =~~= old(self)@.update(
                    layer_index as int,
                    BundleView {
                        deltas: old(self)@[layer_index as int].deltas.update(
                            slot as int,
                            sv_add(old(self)@[layer_index as int].deltas[slot as int], t@),
                        ),
                        ..old(self)@[layer_index as int]
                    },
                ));
                assert forall|l2: int| 0 <= l2 < self@.len() implies (#[trigger] self@[l2]).wf() by {
                    assert(old(self)@[l2].wf());
                }
            } else {
                assert(self@ =~~= old(self)@);
            }
        }
        r
    }

    /// Caches the input/output pair of one forward call of layer
    /// `layer_index` and advances that bundle's unroll cursor.
    pub fn record_forward_pass(&mut self, layer_index: usize, input: Tensor, output: Tensor)
        requires
            old(self).wf(),
            input.wf(),
            output.wf(),
            layer_index < old(self)@.len(),
            old(self)@[layer_index as int].cur < DIM_MAX,
        ensures
            final(self).wf(),
            final(self)@.len() == old(self)@.len(),
            forall|l2: int|
                0 <= l2 < old(self)@.len() && l2 != layer_index ==> final(self)@[l2]
                    == #[trigger] old(self)@[l2],
            final(self)@[layer_index as int] == recorded(
                old(self)@[layer_index as int],
                input@,
                output@,
            ),
    {
        proof {
            assert(self@[layer_index as int].wf());
        }
        let bundle = &mut self.layer_storage[layer_index];
        bundle.record_forward(input, output);
        proof {
            assert forall|l2: int| 0 <= l2 < self@.len() implies (#[trigger] self@[l2]).wf() by {
                if l2 != layer_index {
                    assert(self@[l2] == old(self)@[l2]);
                    assert(old(self)@[l2].wf());
                }
            }
        }
    }
}

impl ParamManager {
    /// Borrows weight `num` of layer `layer_index`.
    pub fn get_weight(&self, layer_index: usize, num: usize) -> (r: &Tensor)
        requires
            layer_index < self@.len(),
            num < self@[layer_index as int].weights.len(),
        ensures
            r@ == self@[layer_index as int].weights[num as int],
    {
        proof {
            assert(self@[layer_index as int].weights[num as int]
                == self.layer_storage@[layer_index as int].weights@[num as int]@);
        }
        &self.layer_storage[layer_index].weights[num]
    }

    /// Borrows gradient `num` of layer `layer_index`.
    pub fn get_delta(&self, layer_index: usize, num: usize) -> (r: &Tensor)
        requires
            layer_index < self@.len(),
            num < self@[layer_index as int].deltas.len(),
        ensures
            r@ == self@[layer_index as int].deltas[num as int],
    {
        proof {
            assert(self@[layer_index as int].deltas[num as int]
                == self.layer_storage@[layer_index as int].deltas@[num as int]@);
        }
        &self.layer_storage[layer_index].deltas[num]
    }

    /// Copies of all cached outputs of layer `layer_index`, in unroll order.
    pub fn get_outputs(&self, layer_index: usize) -> (r: Vec<Tensor>)
        requires
            self.wf(),
            layer_index < self@.len(),
        ensures
            r@.len() == self@[layer_index as int].outputs.len(),
            forall|i: int|
                0 <= i < r@.len() ==> (#[trigger] r@[i]).wf() && r@[i]@ == self@[layer_index as int].outputs[i],
    {
        proof {
            assert(self@[layer_index as int].wf());
        }
        let n = self.layer_storage[layer_index].outputs.len();
        let mut r: Vec<Tensor> = Vec::new();
        let mut i: usize = 0;
        while i < n
            invariant
                self.wf(),
                layer_index < self@.len(),
                n == self@[layer_index as int].outputs.len(),
                i <= n,
                r@.len() == i,
                forall|k: int|
                    0 <= k < i ==> (#[trigger] r@[k]).wf() && r@[k]@ == self@[layer_index as int].outputs[k],
            decreases n - i,
        {
            proof {
                assert(self@[layer_index as int].wf());
                assert(self@[layer_index as int].outputs[i as int]
                    == self.layer_storage@[layer_index as int].outputs@[i as int]@);
            }
            r.push(self.layer_storage[layer_index].outputs[i].duplicate());
            i += 1;
        }
        r
    }

    /// Copies of all weight tensors of layer `layer_index`.
    pub fn get_weights(&self, layer_index: usize) -> (r: Vec<Tensor>)
        requires
            self.wf(),
            layer_index < self@.len(),
        ensures
            r@.len() == self@[layer_index as int].weights.len(),
            forall|i: int|
                0 <= i < r@.len() ==> (#[trigger] r@[i]).wf() && r@[i]@ == self@[layer_index as int].weights[i],
    {
        proof {
            assert(self@[layer_index as int].wf());
        }
        let n = self.layer_storage[layer_index].weights.len();
        let mut r: Vec<Tensor> = Vec::new();
        let mut i: usize = 0;
        while i < n
            invariant
                self.wf(),
                layer_index < self@.len(),
                n == self@[layer_index as int].weights.len(),
                i <= n,
                r@.len() == i,
                forall|k: int|
                    0 <= k < i ==> (#[trigger] r@[k]).wf() && r@[k]@ == self@[layer_index as int].weights[k],
            decreases n - i,
        {
            proof {
                assert(self@[layer_index as int].wf());
                assert(self@[layer_index as int].weights[i as int]
                    == self.layer_storage@[layer_index as int].weights@[i as int]@);
            }
            r.push(self.layer_storage[layer_index].weights[i].duplicate());
            i += 1;
        }
        r
    }

    /// Copies of all bias tensors of layer `layer_index`.
    pub fn get_biases(&self, layer_index: usize) -> (r: Vec<Tensor>)
        requires
            self.wf(),
            layer_index < self@.len(),
        ensures
            r@.len() == self@[layer_index as int].biases.len(),
            forall|i: int|
                0 <= i < r@.len() ==> (#[trigger] r@[i]).wf() && r@[i]@ == self@[layer_index as int].biases[i],
    {
        proof {
            assert(self@[layer_index as int].wf());
        }
        let n = self.layer_storage[layer_index].biases.len();
        let mut r: Vec<Tensor> = Vec::new();
        let mut i: usize = 0;
        while i < n
            invariant
                self.wf(),
                layer_index < self@.len(),
                n == self@[layer_index as int].biases.len(),
                i <= n,
                r@.len() == i,
                forall|k: int|
                    0 <= k < i ==> (#[trigger] r@[k]).wf() && r@[k]@ == self@[layer_index as int].biases[k],
            decreases n - i,
        {
            proof {
                assert(self@[layer_index as int].wf());
                assert(self@[layer_index as int].biases[i as int]
                    == self.layer_storage@[layer_index as int].biases@[i as int]@);
            }
            r.push(self.layer_storage[layer_index].biases[i].duplicate());
            i += 1;
        }
        r
    }

    /// Copies of all gradient tensors of layer `layer_index`, in
    /// `[weights..., biases...]` order.
    pub fn get_deltas(&self, layer_index: usize) -> (r: Vec<Tensor>)
        requires
            self.wf(),
            layer_index < self@.len(),
        ensures
            r@.len() == self@[layer_index as int].deltas.len(),
            forall|i: int|
                0 <= i < r@.len() ==> (#[trigger] r@[i]).wf() && r@[i]@ == self@[layer_index as int].deltas[i],
    {
        proof {
            assert(self@[layer_index as int].wf());
        }
        let n = self.layer_storage[layer_index].deltas.len();
        let mut r: Vec<Tensor> = Vec::new();
        let mut i: usize = 0;
        while i < n
            invariant
                self.wf(),
                layer_index < self@.len(),
                n == self@[layer_index as int].deltas.len(),
                i <= n,
                r@.len() == i,
                forall|k: int|
                    0 <= k < i ==> (#[trigger] r@[k]).wf() && r@[k]@ == self@[layer_index as int].deltas[k],
            decreases n - i,
        {
            proof {
                assert(self@[layer_index as int].wf());
                assert(self@[layer_index as int].deltas[i as int]
                    == self.layer_storage@[layer_index as int].deltas@[i as int]@);
            }
            r.push(self.layer_storage[layer_index].deltas[i].duplicate());
            i += 1;
        }
        r
    }

    /// Replaces weight `num` of layer `layer_index` with a tensor of the
    /// same shape.
    pub fn set_weight(&mut self, layer_index: usize, num: usize, p: Tensor)
        requires
            old(self).wf(),
            p.wf(),
            layer_index < old(self)@.len(),
            num < old(self)@[layer_index as int].weights.len(),
            p@.same_shape(old(self)@[layer_index as int].weights[num as int]),
        ensures
            final(self).wf(),
            final(self)@ == old(self)@.update(
                layer_index as int,
                BundleView {
                    weights: old(self)@[layer_index as int].weights.update(num as int, p@),
                    ..old(self)@[layer_index as int]
                },
            ),
    {
        proof {
            assert(old(self)@[layer_index as int].wf());
        }
        let ghost pv = p@;
        let bundle = &mut self.layer_storage[layer_index];
        bundle.weights[num] = p;
        proof {
            let b2 = BundleView {
                weights: old(self)@[layer_index as int].weights.update(num as int, pv),
                ..old(self)@[layer_index as int]
            };
            assert(self@[layer_index as int].weights =~= b2.weights);
            assert(self@[layer_index as int] =~~= b2);
            assert(self@ =~~= old(self)@.update(layer_index as int, b2));
            assert forall|l2: int| 0 <= l2 < self@.len() implies (#[trigger] self@[l2]).wf() by {
                assert(old(self)@[l2].wf());
                if l2 == layer_index as int {
                    assert forall|i: int| 0 <= i < self@[l2].weights.len() implies (
                    #[trigger] self@[l2].weights[i]).wf() && self@[l2].weights[i].same_shape(
                        self@[l2].deltas[i],
                    ) by {
                        if i != num as int {
                            assert(self@[l2].weights[i] == old(self)@[l2].weights[i]);
                        }
                    }
                }
            }
        }
    }

    /// Replaces bias `num` of layer `layer_index` with a tensor of the same
    /// shape.
    pub fn set_bias(&mut self, layer_index: usize, num: usize, p: Tensor)
        requires
            old(self).wf(),
            p.wf(),
            layer_index < old(self)@.len(),
            num < old(self)@[layer_index as int].biases.len(),
            p@.same_shape(old(self)@[layer_index as int].biases[num as int]),
        ensures
            final(self).wf(),
            final(self)@ == old(self)@.update(
                layer_index as int,
                BundleView {
                    biases: old(self)@[layer_index as int].biases.update(num as int, p@),
                    ..old(self)@[layer_index as int]
                },
            ),
    {
        proof {
            assert(old(self)@[layer_index as int].wf());
        }
        let ghost pv = p@;
        let bundle = &mut self.layer_storage[layer_index];
        bundle.biases[num] = p;
        proof {
            let b2 = BundleView {
                biases: old(self)@[layer_index as int].biases.update(num as int, pv),
                ..old(self)@[layer_index as int]
            };
            assert(self@[layer_index as int].biases =~= b2.biases);
            assert(self@[layer_index as int] =~~= b2);
            assert(self@ =~~= old(self)@.update(layer_index as int, b2));
            assert forall|l2: int| 0 <= l2 < self@.len() implies (#[trigger] self@[l2]).wf() by {
                assert(old(self)@[l2].wf());
                if l2 == layer_index as int {
                    assert forall|i: int| 0 <= i < self@[l2].biases.len() implies (
                    #[trigger] self@[l2].biases[i]).wf() && self@[l2].biases[i].same_shape(
                        self@[l2].deltas[self@[l2].weights.len() + i],
                    ) by {
                        if i != num as int {
                            assert(self@[l2].biases[i] == old(self)@[l2].biases[i]);
                        }
                    }
                }
            }
        }
    }

    /// Replaces gradient `num` of layer `layer_index` with a tensor of the
    /// same shape.
    pub fn set_delta(&mut self, layer_index: usize, num: usize, p: Tensor)
        requires
            old(self).wf(),
            p.wf(),
            layer_index < old(self)@.len(),
            num < old(self)@[layer_index as int].deltas.len(),
            p@.same_shape(old(self)@[layer_index as int].deltas[num as int]),
        ensures
            final(self).wf(),
            final(self)@ == old(self)@.update(
                layer_index as int,
                BundleView {
                    deltas: old(self)@[layer_index as int].deltas.update(num as int, p@),
                    ..old(self)@[layer_index as int]
                },
            ),
    {
        proof {
            assert(old(self)@[layer_index as int].wf());
        }
        let ghost pv = p@;
        let bundle = &mut self.layer_storage[layer_index];
        bundle.deltas[num] = p;
        proof {
            let b2 = BundleView {
                deltas: old(self)@[layer_index as int].deltas.update(num as int, pv),
                ..old(self)@[layer_index as int]
            };
            assert(self@[layer_index as int].deltas =~= b2.deltas);
            assert(self@[layer_index as int] =~~= b2);
            assert(self@ =~~= old(self)@.update(layer_index as int, b2));
            assert forall|l2: int| 0 <= l2 < self@.len() implies (#[trigger] self@[l2]).wf() by {
                assert(old(self)@[l2].wf());
                if l2 == layer_index as int {
                    assert forall|i: int| 0 <= i < self@[l2].deltas.len() implies (
                    #[trigger] self@[l2].deltas[i]).wf() by {
                        if i != num as int {
                            assert(self@[l2].deltas[i] == old(self)@[l2].deltas[i]);
                        }
                    }
                }
            }
        }
    }

    /// The extents of every learnable tensor from layer `l` on, flattened.
    fn dims_from(&self, l: usize) -> (r: Vec<Dims>)
        requires
            self.wf(),
            l <= self@.len(),
        ensures
            r@.len() == flat_count_from(self@, l as int),
            forall|p: int|
                0 <= p < r@.len() ==> flat_get_from(self@, l as int, p).shape_of(#[trigger] r@[p])
                    && r@[p].wf(),
        decreases self@.len() - l,
    {
        proof {
            lemma_flat_count_nonneg(self@, l as int + 1);
        }
        if l == self.layer_storage.len() {
            return Vec::new();
        }
        proof {
            assert(self@[l as int].wf());
        }
        let wlen = self.num_weights(l);
        let blen = self.num_biases(l);
        let mut head: Vec<Dims> = Vec::new();
        let mut i: usize = 0;
        while i < wlen
            invariant
                self.wf(),
                l < self@.len(),
                wlen == self@[l as int].weights.len(),
                i <= wlen,
                head@.len() == i,
                forall|k: int|
                    0 <= k < i ==> self@[l as int].weights[k].shape_of(#[trigger] head@[k])
                        && head@[k].wf(),
            decreases wlen - i,
        {
            proof {
                assert(self@[l as int].wf());
                assert(self@[l as int].weights[i as int]
                    == self.layer_storage@[l as int].weights@[i as int]@);
            }
            let t = &self.layer_storage[l].weights[i];
            head.push(Dims { rows: t.dims.rows, cols: t.dims.cols, time: t.dims.time, extra: 1 });
            i += 1;
        }
        let mut i: usize = 0;
        while i < blen
            invariant
                self.wf(),
                l < self@.len(),
                wlen == self@[l as int].weights.len(),
                blen == self@[l as int].biases.len(),
                i <= blen,
                head@.len() == wlen + i,
                forall|k: int|
                    0 <= k < wlen ==> self@[l as int].weights[k].shape_of(#[trigger] head@[k])
                        && head@[k].wf(),
                forall|k: int|
                    0 <= k < i ==> self@[l as int].biases[k].shape_of(#[trigger] head@[wlen + k])
                        && head@[wlen + k].wf(),
            decreases blen - i,
        {
            proof {
                assert(self@[l as int].wf());
                assert(self@[l as int].biases[i as int]
                    == self.layer_storage@[l as int].biases@[i as int]@);
            }
            let t = &self.layer_storage[l].biases[i];
            head.push(Dims { rows: t.dims.rows, cols: t.dims.cols, time: t.dims.time, extra: 1 });
            i += 1;
        }
        let mut tail = self.dims_from(l + 1);
        let ghost headv = head@;
        head.append(&mut tail);
        proof {
            assert forall|p: int| 0 <= p < head@.len() implies flat_get_from(
                self@,
                l as int,
                p,
            ).shape_of(#[trigger] head@[p]) && head@[p].wf() by {
                if p < wlen + blen {
                    assert(head@[p] == headv[p]);
                    assert(flat_get_from(self@, l as int, p) == self@[l as int].slot(p));
                } else {
                    assert(flat_get_from(self@, l as int, p) == flat_get_from(
                        self@,
                        l as int + 1,
                        p - (wlen + blen),
                    ));
                }
            }
        }
        head
    }

    /// Copies of the learnable tensors from layer `l` on, flattened.
    fn arrays_from(&self, l: usize, grads: bool) -> (r: Vec<Tensor>)
        requires
            self.wf(),
            l <= self@.len(),
        ensures
            r@.len() == flat_count_from(self@, l as int),
            forall|p: int|
                0 <= p < r@.len() ==> (#[trigger] r@[p]).wf() && r@[p]@ == (if grads {
                    flat_grad_from(self@, l as int, p)
                } else {
                    flat_get_from(self@, l as int, p)
                }) && r@[p]@.shape_of(r@[p].dims),
        decreases self@.len() - l,
    {
        proof {
            lemma_flat_count_nonneg(self@, l as int + 1);
        }
        if l == self.layer_storage.len() {
            return Vec::new();
        }
        proof {
            assert(self@[l as int].wf());
        }
        let wlen = self.num_weights(l);
        let blen = self.num_biases(l);
        let mut head: Vec<Tensor> = Vec::new();
        let mut i: usize = 0;
        while i < wlen + blen
            invariant
                self.wf(),
                l < self@.len(),
                wlen == self@[l as int].weights.len(),
                blen == self@[l as int].biases.len(),
                i <= wlen + blen,
                head@.len() == i,
                forall|k: int|
                    0 <= k < i ==> (#[trigger] head@[k]).wf() && head@[k]@ == (if grads {
                        self@[l as int].grad(k)
                    } else {
                        self@[l as int].slot(k)
                    }) && head@[k]@.shape_of(head@[k].dims),
            decreases wlen + blen - i,
        {
            proof {
                assert(self@[l as int].wf());
            }
            let mut t = if grads {
                proof {
                    assert(self@[l as int].deltas[i as int]
                        == self.layer_storage@[l as int].deltas@[i as int]@);
                }
                self.layer_storage[l].deltas[i].duplicate()
            } else if i < wlen {
                proof {
                    assert(self@[l as int].weights[i as int]
                        == self.layer_storage@[l as int].weights@[i as int]@);
                }
                self.layer_storage[l].weights[i].duplicate()
            } else {
                proof {
                    assert(self@[l as int].biases[i - wlen]
                        == self.layer_storage@[l as int].biases@[i - wlen]@);
                }
                self.layer_storage[l].biases[i - wlen].duplicate()
            };
            t.dims = Dims { rows: t.dims.rows, cols: t.dims.cols, time: t.dims.time, extra: 1 };
            head.push(t);
            i += 1;
        }
        let mut tail = self.arrays_from(l + 1, grads);
        let ghost headv = head@;
        head.append(&mut tail);
        proof {
            assert forall|p: int| 0 <= p < head@.len() implies (#[trigger] head@[p]).wf()
                && head@[p]@ == (if grads {
                flat_grad_from(self@, l as int, p)
            } else {
                flat_get_from(self@, l as int, p)
            }) && head@[p]@.shape_of(head@[p].dims) by {
                if p < wlen + blen {
                    assert(head@[p] == headv[p]);
                    assert(flat_get_from(self@, l as int, p) == self@[l as int].slot(p));
                    assert(flat_grad_from(self@, l as int, p) == self@[l as int].grad(p));
                } else {
                    assert(flat_get_from(self@, l as int, p) == flat_get_from(
                        self@,
                        l as int + 1,
                        p - (wlen + blen),
                    ));
                    assert(flat_grad_from(self@, l as int, p) == flat_grad_from(
                        self@,
                        l as int + 1,
                        p - (wlen + blen),
                    ));
                }
            }
        }
        head
    }

    /// Copies of every learnable tensor, in the flattened
    /// `[layer0.weights, layer0.biases, layer1.weights, ...]` order.
    pub fn get_all_arrays(&self) -> (r: Vec<Tensor>)
        requires
            self.wf(),
        ensures
            r@.len() == flat_count(self@),
            forall|p: int|
                0 <= p < r@.len() ==> (#[trigger] r@[p]).wf() && r@[p]@ == flat_get(self@, p)
                    && flat_get(self@, p).shape_of(r@[p].dims),
    {
        self.arrays_from(0, false)
    }

    /// Copies of every accumulated gradient, aligned with `get_all_arrays`.
    pub fn get_all_deltas(&self) -> (r: Vec<Tensor>)
        requires
            self.wf(),
        ensures
            r@.len() == flat_count(self@),
            forall|p: int|
                0 <= p < r@.len() ==> (#[trigger] r@[p]).wf() && r@[p]@ == flat_grad(self@, p)
                    && flat_grad(self@, p).shape_of(r@[p].dims),
    {
        self.arrays_from(0, true)
    }

    /// The extents of every learnable tensor, in the flattened
    /// `[layer0.weights, layer0.biases, layer1.weights, ...]` order.
    pub fn get_all_dims(&self) -> (r: Vec<Dims>)
        requires
            self.wf(),
        ensures
            r@.len() == flat_count(self@),
            forall|p: int|
                0 <= p < r@.len() ==> flat_get(self@, p).shape_of(#[trigger] r@[p]) && r@[p].wf(),
    {
        self.dims_from(0)
    }
}

/// The extents of a parameter described by an `(input, output)` pair.
pub open spec fn pair_dims(p: (usize, usize)) -> Dims {
    Dims { rows: p.0, cols: p.1, time: 1, extra: 1 }
}

/// A parameter tensor built by a known initializer.
fn generate(init: &str, dims: Dims) -> (t: Tensor)
    requires
        init_known(init@),
        dims.wf(),
    ensures
        t.wf(),
        t.dims == dims,
        forall|n: int| 0 <= n < t@.data.len() ==> -INIT_MAX <= #[trigger] t@.data[n] <= INIT_MAX,
        init@ == "zeros"@ ==> t@ == sv_const(dims.rows as nat, dims.cols as nat, dims.time as nat, 0),
        init@ == "ones"@ ==> t@ == sv_const(dims.rows as nat, dims.cols as nat, dims.time as nat, 1),
{
    match get_initialization(init, dims) {
        Ok(t) => t,
        Err(_) => unreached(),
    }
}

impl ParamManager {
    /// Appends one bundle: a parameter tensor and a zero gradient per
    /// `(initializer, (rows, cols))` description, weights first and biases
    /// after, plus the activation names. Fails with `Overflow` when a store
    /// cap would be passed, `ShapeMismatch` on unusable extents, and
    /// `UnknownInitializer` on an unregistered initializer name; on failure
    /// the store is untouched.
    pub fn add(
        &mut self,
        _layer_type: &str,
        weight_params: Vec<(&str, (usize, usize))>,
        bias_params: Vec<(&str, (usize, usize))>,
        activations: Vec<&str>,
    ) -> (r: Result<(), HALError>)
        requires
            old(self).wf(),
        ensures
            final(self).wf(),
            r is Ok <==> (old(self)@.len() < LAYER_MAX && weight_params@.len() <= SLOT_MAX
                && bias_params@.len() <= SLOT_MAX && (forall|i: int|
                0 <= i < weight_params@.len() ==> pair_dims(
                    (#[trigger] weight_params@[i]).1,
                ).wf() && init_known(weight_params@[i].0@)) && (forall|i: int|
                0 <= i < bias_params@.len() ==> pair_dims((#[trigger] bias_params@[i]).1).wf()
                    && init_known(bias_params@[i].0@))),
            r is Err ==> final(self)@ == old(self)@,
            r is Err && r->Err_0 == HALError::Overflow <==> !(old(self)@.len() < LAYER_MAX
                && weight_params@.len() <= SLOT_MAX && bias_params@.len() <= SLOT_MAX),
            r is Err && r->Err_0 == HALError::ShapeMismatch <==> (old(self)@.len() < LAYER_MAX
                && weight_params@.len() <= SLOT_MAX && bias_params@.len() <= SLOT_MAX && !((
            forall|i: int|
                0 <= i < weight_params@.len() ==> pair_dims(
                    (#[trigger] weight_params@[i]).1,
                ).wf()) && (forall|i: int|
                0 <= i < bias_params@.len() ==> pair_dims((#[trigger] bias_params@[i]).1).wf()))),
            r is Err && r->Err_0 == HALError::UnknownInitializer <==> (old(self)@.len() < LAYER_MAX
                && weight_params@.len() <= SLOT_MAX && bias_params@.len() <= SLOT_MAX && (forall|
                i: int,
            |
                0 <= i < weight_params@.len() ==> pair_dims(
                    (#[trigger] weight_params@[i]).1,
                ).wf()) && (forall|i: int|
                0 <= i < bias_params@.len() ==> pair_dims((#[trigger] bias_params@[i]).1).wf())
                && !((forall|i: int|
                0 <= i < weight_params@.len() ==> init_known((#[trigger] weight_params@[i]).0@))
                && (forall|i: int|
                0 <= i < bias_params@.len() ==> init_known((#[trigger] bias_params@[i]).0@)))),
            r is Ok ==> final(self)@.len() == old(self)@.len() + 1 && (forall|l2: int|
                0 <= l2 < old(self)@.len() ==> final(self)@[l2] == #[trigger] old(self)@[l2]) && ({
                let b = final(self)@.last();
                &&& b.wf()
                &&& b.weights.len() == weight_params@.len()
                &&& b.biases.len() == bias_params@.len()
                &&& b.deltas.len() == weight_params@.len() + bias_params@.len()
                &&& b.activations.len() == activations@.len()
                &&& (forall|i: int|
                    0 <= i < activations@.len() ==> b.activations[i] == (
                    #[trigger] activations@[i])@)
                &&& b.inputs.len() == 0
                &&& b.outputs.len() == 0
                &&& b.cur == 0
                &&& (forall|i: int|
                    0 <= i < weight_params@.len() ==> (#[trigger] b.weights[i]).shape_of(
                        pair_dims(weight_params@[i].1),
                    ))
                &&& (forall|i: int|
                    0 <= i < bias_params@.len() ==> (#[trigger] b.biases[i]).shape_of(
                        pair_dims(bias_params@[i].1),
                    ))
                &&& (forall|i: int|
                    0 <= i < weight_params@.len() ==> #[trigger] b.deltas[i] == sv_const(
                        weight_params@[i].1.0 as nat,
                        weight_params@[i].1.1 as nat,
                        1,
                        0,
                    ))
                &&& (forall|i: int|
                    0 <= i < bias_params@.len() ==> b.deltas[weight_params@.len() + i] == sv_const(
                        (#[trigger] bias_params@[i]).1.0 as nat,
                        bias_params@[i].1.1 as nat,
                        1,
                        0,
                    ))
                &&& (forall|i: int, n: int|
                    0 <= i < weight_params@.len() && 0 <= n < b.weights[i].data.len() ==> -INIT_MAX
                        <= #[trigger] b.weights[i].data[n] <= INIT_MAX)
                &&& (forall|i: int, n: int|
                    0 <= i < bias_params@.len() && 0 <= n < b.biases[i].data.len() ==> -INIT_MAX
                        <= #[trigger] b.biases[i].data[n] <= INIT_MAX)
                &&& (forall|i: int|
                    0 <= i < weight_params@.len() && (#[trigger] weight_params@[i]).0@ == "zeros"@
                        ==> b.weights[i] == sv_const(
                        weight_params@[i].1.0 as nat,
                        weight_params@[i].1.1 as nat,
                        1,
                        0,
                    ))
                &&& (forall|i: int|
                    0 <= i < weight_params@.len() && (#[trigger] weight_params@[i]).0@ == "ones"@
                        ==> b.weights[i] == sv_const(
                        weight_params@[i].1.0 as nat,
                        weight_params@[i].1.1 as nat,
                        1,
                        1,
                    ))
                &&& (forall|i: int|
                    0 <= i < bias_params@.len() && (#[trigger] bias_params@[i]).0@ == "zeros"@
                        ==> b.biases[i] == sv_const(
                        bias_params@[i].1.0 as nat,
                        bias_params@[i].1.1 as nat,
                        1,
                        0,
                    ))
                &&& (forall|i: int|
                    0 <= i < bias_params@.len() && (#[trigger] bias_params@[i]).0@ == "ones"@
                        ==> b.biases[i] == sv_const(
                        bias_params@[i].1.0 as nat,
                        bias_params@[i].1.1 as nat,
                        1,
                        1,
                    ))
            }),
    {
        if self.layer_storage.len() >= LAYER_MAX {
            return Err(HALError::Overflow);
        }
        if weight_params.len() > SLOT_MAX || bias_params.len() > SLOT_MAX {
            return Err(HALError::Overflow);
        }
        let wn = weight_params.len();
        let bn = bias_params.len();
        let mut i: usize = 0;
        while i < wn
            invariant
                old(self).wf(),
                self@ == old(self)@,
                old(self)@.len() < LAYER_MAX,
                wn <= SLOT_MAX,
                bn <= SLOT_MAX,
                wn == weight_params@.len(),
                bn == bias_params@.len(),
                i <= wn,
                forall|k: int| 0 <= k < i ==> pair_dims((#[trigger] weight_params@[k]).1).wf(),
            decreases wn - i,
        {
            let p = weight_params[i];
            let d = Dims { rows: p.1.0, cols: p.1.1, time: 1, extra: 1 };
            if !d.check() {
                return Err(HALError::ShapeMismatch);
            }
            i += 1;
        }
        let mut i: usize = 0;
        while i < bn
            invariant
                old(self).wf(),
                self@ == old(self)@,
                old(self)@.len() < LAYER_MAX,
                wn <= SLOT_MAX,
                bn <= SLOT_MAX,
                wn == weight_params@.len(),
                bn == bias_params@.len(),
                i <= bn,
                forall|k: int| 0 <= k < wn ==> pair_dims((#[trigger] weight_params@[k]).1).wf(),
                forall|k: int| 0 <= k < i ==> pair_dims((#[trigger] bias_params@[k]).1).wf(),
            decreases bn - i,
        {
            let p = bias_params[i];
            let d = Dims { rows: p.1.0, cols: p.1.1, time: 1, extra: 1 };
            if !d.check() {
                return Err(HALError::ShapeMismatch);
            }
            i += 1;
        }
        let mut i: usize = 0;
        while i < wn
            invariant
                old(self).wf(),
                self@ == old(self)@,
                old(self)@.len() < LAYER_MAX,
                wn <= SLOT_MAX,
                bn <= SLOT_MAX,
                wn == weight_params@.len(),
                bn == bias_params@.len(),
                i <= wn,
                forall|k: int| 0 <= k < wn ==> pair_dims((#[trigger] weight_params@[k]).1).wf(),
                forall|k: int| 0 <= k < bn ==> pair_dims((#[trigger] bias_params@[k]).1).wf(),
                forall|k: int| 0 <= k < i ==> init_known((#[trigger] weight_params@[k]).0@),
            decreases wn - i,
        {
            let p = weight_params[i];
            if !init_name_known(p.0) {
                return Err(HALError::UnknownInitializer);
            }
            i += 1;
        }
        let mut i: usize = 0;
        while i < bn
            invariant
                old(self).wf(),
                self@ == old(self)@,
                old(self)@.len() < LAYER_MAX,
                wn <= SLOT_MAX,
                bn <= SLOT_MAX,
                wn == weight_params@.len(),
                bn == bias_params@.len(),
                i <= bn,
                forall|k: int| 0 <= k < wn ==> pair_dims((#[trigger] weight_params@[k]).1).wf(),
                forall|k: int| 0 <= k < bn ==> pair_dims((#[trigger] bias_params@[k]).1).wf(),
                forall|k: int| 0 <= k < wn ==> init_known((#[trigger] weight_params@[k]).0@),
                forall|k: int| 0 <= k < i ==> init_known((#[trigger] bias_params@[k]).0@),
            decreases bn - i,
        {
            let p = bias_params[i];
            if !init_name_known(p.0) {
                return Err(HALError::UnknownInitializer);
            }
            i += 1;
        }
        let mut weights: Vec<Tensor> = Vec::new();
        let mut deltas: Vec<Tensor> = Vec::new();
        let mut i: usize = 0;
        while i < wn
            invariant
                old(self).wf(),
                self@ == old(self)@,
                old(self)@.len() < LAYER_MAX,
                wn <= SLOT_MAX,
                bn <= SLOT_MAX,
                wn == weight_params@.len(),
                bn == bias_params@.len(),
                i <= wn,
                forall|k: int|
                    0 <= k < wn ==> pair_dims((#[trigger] weight_params@[k]).1).wf() && init_known(
                        weight_params@[k].0@,
                    ),
                weights@.len() == i,
                deltas@.len() == i,
                forall|k: int|
                    0 <= k < i ==> (#[trigger] weights@[k]).wf() && weights@[k]@.shape_of(
                        pair_dims(weight_params@[k].1),
                    ),
                forall|k: int, n: int|
                    0 <= k < i && 0 <= n < weights@[k]@.data.len() ==> -INIT_MAX
                        <= #[trigger] weights@[k]@.data[n] <= INIT_MAX,
                forall|k: int|
                    0 <= k < i && (#[trigger] weight_params@[k]).0@ == "zeros"@ ==> weights@[k]@
                        == sv_const(
                        weight_params@[k].1.0 as nat,
                        weight_params@[k].1.1 as nat,
                        1,
                        0,
                    ),
                forall|k: int|
                    0 <= k < i && (#[trigger] weight_params@[k]).0@ == "ones"@ ==> weights@[k]@
                        == sv_const(
                        weight_params@[k].1.0 as nat,
                        weight_params@[k].1.1 as nat,
                        1,
                        1,
                    ),
                forall|k: int|
                    0 <= k < i ==> (#[trigger] deltas@[k]).wf() && deltas@[k]@ == sv_const(
                        weight_params@[k].1.0 as nat,
                        weight_params@[k].1.1 as nat,
                        1,
                        0,
                    ),
            decreases wn - i,
        {
            let p = weight_params[i];
            let d = Dims { rows: p.1.0, cols: p.1.1, time: 1, extra: 1 };
            weights.push(generate(p.0, d));
            deltas.push(crate::tensor::fill(d, 0));
            i += 1;
        }
        let mut biases: Vec<Tensor> = Vec::new();
        let mut i: usize = 0;
        while i < bn
            invariant
                old(self).wf(),
                self@ == old(self)@,
                old(self)@.len() < LAYER_MAX,
                wn <= SLOT_MAX,
                bn <= SLOT_MAX,
                wn == weight_params@.len(),
                bn == bias_params@.len(),
                i <= bn,
                forall|k: int|
                    0 <= k < bn ==> pair_dims((#[trigger] bias_params@[k]).1).wf() && init_known(
                        bias_params@[k].0@,
                    ),
                biases@.len() == i,
                deltas@.len() == wn + i,
                forall|k: int|
                    0 <= k < i ==> (#[trigger] biases@[k]).wf() && biases@[k]@.shape_of(
                        pair_dims(bias_params@[k].1),
                    ),
                forall|k: int, n: int|
                    0 <= k < i && 0 <= n < biases@[k]@.data.len() ==> -INIT_MAX
                        <= #[trigger] biases@[k]@.data[n] <= INIT_MAX,
                forall|k: int|
                    0 <= k < i && (#[trigger] bias_params@[k]).0@ == "zeros"@ ==> biases@[k]@
                        == sv_const(bias_params@[k].1.0 as nat, bias_params@[k].1.1 as nat, 1, 0),
                forall|k: int|
                    0 <= k < i && (#[trigger] bias_params@[k]).0@ == "ones"@ ==> biases@[k]@
                        == sv_const(bias_params@[k].1.0 as nat, bias_params@[k].1.1 as nat, 1, 1),
                forall|k: int|
                    0 <= k < wn ==> (#[trigger] deltas@[k]).wf() && deltas@[k]@ == sv_const(
                        weight_params@[k].1.0 as nat,
                        weight_params@[k].1.1 as nat,
                        1,
                        0,
                    ),
                forall|k: int|
                    0 <= k < i ==> (#[trigger] deltas@[wn + k]).wf() && deltas@[wn + k]@
                        == sv_const(
                        bias_params@[k].1.0 as nat,
                        bias_params@[k].1.1 as nat,
                        1,
                        0,
                    ),
            decreases bn - i,
        {
            let p = bias_params[i];
            let d = Dims { rows: p.1.0, cols: p.1.1, time: 1, extra: 1 };
            biases.push(generate(p.0, d));
            deltas.push(crate::tensor::fill(d, 0));
            i += 1;
        }
        let mut acts: Vec<String> = Vec::new();
        let mut i: usize = 0;
        while i < activations.len()
            invariant
                old(self).wf(),
                self@ == old(self)@,
                old(self)@.len() < LAYER_MAX,
                wn <= SLOT_MAX,
                bn <= SLOT_MAX,
                wn == weight_params@.len(),
                bn == bias_params@.len(),
                wn == weights@.len(),
                bn == biases@.len(),
                deltas@.len() == wn + bn,
                forall|k: int|
                    0 <= k < wn ==> (#[trigger] weights@[k]).wf() && weights@[k]@.shape_of(
                        pair_dims(weight_params@[k].1),
                    ),
                forall|k: int, n: int|
                    0 <= k < wn && 0 <= n < weights@[k]@.data.len() ==> -INIT_MAX
                        <= #[trigger] weights@[k]@.data[n] <= INIT_MAX,
                forall|k: int|
                    0 <= k < wn && (#[trigger] weight_params@[k]).0@ == "zeros"@ ==> weights@[k]@
                        == sv_const(
                        weight_params@[k].1.0 as nat,
                        weight_params@[k].1.1 as nat,
                        1,
                        0,
                    ),
                forall|k: int|
                    0 <= k < wn && (#[trigger] weight_params@[k]).0@ == "ones"@ ==> weights@[k]@
                        == sv_const(
                        weight_params@[k].1.0 as nat,
                        weight_params@[k].1.1 as nat,
                        1,
                        1,
                    ),
                forall|k: int|
                    0 <= k < bn ==> (#[trigger] biases@[k]).wf() && biases@[k]@.shape_of(
                        pair_dims(bias_params@[k].1),
                    ),
                forall|k: int, n: int|
                    0 <= k < bn && 0 <= n < biases@[k]@.data.len() ==> -INIT_MAX
                        <= #[trigger] biases@[k]@.data[n] <= INIT_MAX,
                forall|k: int|
                    0 <= k < bn && (#[trigger] bias_params@[k]).0@ == "zeros"@ ==> biases@[k]@
                        == sv_const(bias_params@[k].1.0 as nat, bias_params@[k].1.1 as nat, 1, 0),
                forall|k: int|
                    0 <= k < bn && (#[trigger] bias_params@[k]).0@ == "ones"@ ==> biases@[k]@
                        == sv_const(bias_params@[k].1.0 as nat, bias_params@[k].1.1 as nat, 1, 1),
                forall|k: int|
                    0 <= k < wn ==> (#[trigger] deltas@[k]).wf() && deltas@[k]@ == sv_const(
                        weight_params@[k].1.0 as nat,
                        weight_params@[k].1.1 as nat,
                        1,
                        0,
                    ),
                forall|k: int|
                    0 <= k < bn ==> (#[trigger] deltas@[wn + k]).wf() && deltas@[wn + k]@
                        == sv_const(
                        bias_params@[k].1.0 as nat,
                        bias_params@[k].1.1 as nat,
                        1,
                        0,
                    ),
                i <= activations@.len(),
                acts@.len() == i,
                forall|k: int| 0 <= k < i ==> (#[trigger] acts@[k])@ == activations@[k]@,
            decreases activations@.len() - i,
        {
            let a: &str = activations[i];
            acts.push(a.to_owned());
            i += 1;
        }
        let bundle = Params {
            weights,
            biases,
            deltas,
            activations: acts,
            inputs: Vec::new(),
            outputs: Vec::new(),
            current_unroll: 0,
        };
        proof {
            let bv = bundle@;
            assert(bv.weights.len() == wn && bv.biases.len() == bn && bv.deltas.len() == wn + bn);
            assert forall|k: int| 0 <= k < wn implies (#[trigger] bv.weights[k]).wf()
                && bv.weights[k].same_shape(bv.deltas[k]) by {
                assert(bv.weights[k] == weights@[k]@);
                assert(bv.deltas[k] == deltas@[k]@);
                assert(weights@[k].wf());
                assert(deltas@[k]@ == sv_const(
                    weight_params@[k].1.0 as nat,
                    weight_params@[k].1.1 as nat,
                    1,
                    0,
                ));
            }
            assert forall|k: int| 0 <= k < bn implies (#[trigger] bv.biases[k]).wf()
                && bv.biases[k].same_shape(bv.deltas[wn + k]) by {
                assert(bv.biases[k] == biases@[k]@);
                assert(bv.deltas[wn + k] == deltas@[wn + k]@);
                assert(biases@[k].wf());
                assert(deltas@[wn + k]@ == sv_const(
                    bias_params@[k].1.0 as nat,
                    bias_params@[k].1.1 as nat,
                    1,
                    0,
                ));
            }
            assert forall|k: int| 0 <= k < wn + bn implies (#[trigger] bv.deltas[k]).wf() by {
                assert(bv.deltas[k] == deltas@[k]@);
                if k < wn {
                    assert(deltas@[k].wf());
                } else {
                    assert(deltas@[wn + (k - wn)].wf());
                }
            }
            assert(bundle@.wf());
        }
        self.layer_storage.push(bundle);
        proof {
            assert forall|l2: int| 0 <= l2 < old(self)@.len() implies self@[l2] == #[trigger] old(
                self,
            )@[l2] by {
                assert(self.layer_storage@[l2] == old(self).layer_storage@[l2]);
            }
            assert(self@.last() == bundle@);
            assert forall|l2: int| 0 <= l2 < self@.len() implies (#[trigger] self@[l2]).wf() by {
                if l2 < old(self)@.len() {
                    assert(old(self)@[l2].wf());
                }
            }
        }
        Ok(())
    }
}

/// A freshly added dense bundle: one weight matrix `[input, output]`, one
/// bias column `[output, 1]`, their two zero gradients in that order, one
/// activation name, empty caches, cursor at zero.
pub open spec fn is_fresh_dense(
    b: BundleView,
    input_size: int,
    output_size: int,
    activation: Seq<char>,
    w_init: Seq<char>,
    b_init: Seq<char>,
) -> bool {
    &&& b.wf()
    &&& b.weights.len() == 1
    &&& b.biases.len() == 1
    &&& b.deltas.len() == 2
    &&& b.weights[0].rows == input_size
    &&& b.weights[0].cols == output_size
    &&& b.weights[0].time == 1
    &&& b.biases[0].rows == output_size
    &&& b.biases[0].cols == 1
    &&& b.biases[0].time == 1
    &&& b.deltas[0] == sv_const(input_size as nat, output_size as nat, 1, 0)
    &&& b.deltas[1] == sv_const(output_size as nat, 1, 1, 0)
    &&& b.activations.len() == 1
    &&& b.activations[0] == activation
    &&& b.inputs.len() == 0
    &&& b.outputs.len() == 0
    &&& b.cur == 0
    &&& (forall|n: int|
        0 <= n < b.weights[0].data.len() ==> -INIT_MAX <= #[trigger] b.weights[0].data[n]
            <= INIT_MAX)
    &&& (forall|n: int|
        0 <= n < b.biases[0].data.len() ==> -INIT_MAX <= #[trigger] b.biases[0].data[n]
            <= INIT_MAX)
    &&& (w_init == "zeros"@ ==> b.weights[0] == sv_const(
        input_size as nat,
        output_size as nat,
        1,
        0,
    ))
    &&& (w_init == "ones"@ ==> b.weights[0] == sv_const(
        input_size as nat,
        output_size as nat,
        1,
        1,
    ))
    &&& (b_init == "zeros"@ ==> b.biases[0] == sv_const(output_size as nat, 1, 1, 0))
    &&& (b_init == "ones"@ ==> b.biases[0] == sv_const(output_size as nat, 1, 1, 1))
}

/// Generators for layer kinds whose parameters live in a store.
pub trait DenseGenerator {
    /// The flattened store this generator appends to.
    spec fn dg_view(&self) -> Seq<BundleView>;

    /// The generator's own invariant.
    spec fn dg_wf(&self) -> bool;

    /// Appends the bundle of one dense layer: a weight matrix
    /// `[input_size, output_size]` built by `w_init`, a bias column
    /// `[output_size, 1]` built by `b_init`, and one zero gradient for each.
    fn add_dense(
        &mut self,
        input_size: usize,
        output_size: usize,
        activation: &str,
        w_init: &str,
        b_init: &str,
    ) -> (r: Result<(), HALError>)
        requires
            old(self).dg_wf(),
        ensures
            final(self).dg_wf(),
            r is Ok <==> (old(self).dg_view().len() < LAYER_MAX && (Dims {
                rows: input_size,
                cols: output_size,
                time: 1,
                extra: 1,
            }).wf() && (Dims { rows: output_size, cols: 1, time: 1, extra: 1 }).wf() && init_known(
                w_init@,
            ) && init_known(b_init@)),
            r is Err ==> final(self).dg_view() == old(self).dg_view(),
            r is Err && r->Err_0 == HALError::Overflow <==> old(self).dg_view().len() >= LAYER_MAX,
            r is Err && r->Err_0 == HALError::ShapeMismatch <==> (old(self).dg_view().len()
                < LAYER_MAX && !((Dims {
                rows: input_size,
                cols: output_size,
                time: 1,
                extra: 1,
            }).wf() && (Dims { rows: output_size, cols: 1, time: 1, extra: 1 }).wf())),
            r is Err && r->Err_0 == HALError::UnknownInitializer <==> (old(self).dg_view().len()
                < LAYER_MAX && (Dims {
                rows: input_size,
                cols: output_size,
                time: 1,
                extra: 1,
            }).wf() && (Dims { rows: output_size, cols: 1, time: 1, extra: 1 }).wf() && !(
            init_known(w_init@) && init_known(b_init@))),
            r is Ok ==> final(self).dg_view().len() == old(self).dg_view().len() + 1 && (forall|
                l2: int,
            |
                0 <= l2 < old(self).dg_view().len() ==> final(self).dg_view()[l2]
                    == #[trigger] old(self).dg_view()[l2]) && is_fresh_dense(
                final(self).dg_view().last(),
                input_size as int,
                output_size as int,
                activation@,
                w_init@,
                b_init@,
            ),
    ;
}

impl DenseGenerator for ParamManager {
    open spec fn dg_view(&self) -> Seq<BundleView> {
        self@
    }

    open spec fn dg_wf(&self) -> bool {
        self.wf()
    }

    fn add_dense(
        &mut self,
        input_size: usize,
        output_size: usize,
        activation: &str,
        w_init: &str,
        b_init: &str,
    ) -> (r: Result<(), HALError>) {
        let mut weight_params: Vec<(&str, (usize, usize))> = Vec::new();
        weight_params.push((w_init, (input_size, output_size)));
        let mut bias_params: Vec<(&str, (usize, usize))> = Vec::new();
        bias_params.push((b_init, (output_size, 1)));
        let mut acts: Vec<&str> = Vec::new();
        acts.push(activation);
        let r = self.add("dense", weight_params, bias_params, acts);
        proof {
            let wd = Dims { rows: input_size, cols: output_size, time: 1, extra: 1 };
            let bd = Dims { rows: output_size, cols: 1, time: 1, extra: 1 };
            assert(weight_params@[0] == (w_init, (input_size, output_size)));
            assert(bias_params@[0] == (b_init, (output_size, 1usize)));
            assert((forall|i: int|
                0 <= i < weight_params@.len() ==> pair_dims(
                    (#[trigger] weight_params@[i]).1,
                ).wf()) <==> wd.wf()) by {
                if wd.wf() {
                    assert forall|i: int| 0 <= i < weight_params@.len() implies pair_dims(
                        (#[trigger] weight_params@[i]).1,
                    ).wf() by {
                        assert(i == 0);
                    }
                } else {
                    assert(pair_dims(weight_params@[0].1) == wd);
                }
            }
            assert((forall|i: int|
                0 <= i < bias_params@.len() ==> pair_dims((#[trigger] bias_params@[i]).1).wf())
                <==> bd.wf()) by {
                if bd.wf() {
                    assert forall|i: int| 0 <= i < bias_params@.len() implies pair_dims(
                        (#[trigger] bias_params@[i]).1,
                    ).wf() by {
                        assert(i == 0);
                    }
                } else {
                    assert(pair_dims(bias_params@[0].1) == bd);
                }
            }
            assert((forall|i: int|
                0 <= i < weight_params@.len() ==> init_known(
                    (#[trigger] weight_params@[i]).0@,
                )) <==> init_known(w_init@)) by {
                if init_known(w_init@) {
                    assert forall|i: int| 0 <= i < weight_params@.len() implies init_known(
                        (#[trigger] weight_params@[i]).0@,
                    ) by {
                        assert(i == 0);
                    }
                }
            }
            assert((forall|i: int|
                0 <= i < bias_params@.len() ==> init_known((#[trigger] bias_params@[i]).0@))
                <==> init_known(b_init@)) by {
                if init_known(b_init@) {
                    assert forall|i: int| 0 <= i < bias_params@.len() implies init_known(
                        (#[trigger] bias_params@[i]).0@,
                    ) by {
                        assert(i == 0);
                    }
                }
            }
            if r is Ok {
                let b = final(self)@.last();
                assert(weight_params@[0] == (w_init, (input_size, output_size)));
                assert(bias_params@[0] == (b_init, (output_size, 1usize)));
                assert(b.weights[0].shape_of(pair_dims(weight_params@[0].1)));
                assert(b.biases[0].shape_of(pair_dims(bias_params@[0].1)));
                assert(b.deltas[0] == sv_const(input_size as nat, output_size as nat, 1, 0));
                assert(b.deltas[weight_params@.len() as int + 0] == sv_const(
                    output_size as nat,
                    1,
                    1,
                    0,
                ));
                assert(b.activations[0] == (acts@[0])@);
                assert(is_fresh_dense(
                    b,
                    input_size as int,
                    output_size as int,
                    activation@,
                    w_init@,
                    b_init@,
                ));
            }
        }
        r
    }
}

} // verus!
