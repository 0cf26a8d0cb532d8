use hal::data::Data;
use hal::data::DataParams;
use hal::data::DataSouce;
use hal::data::RampSource;
use hal::error::HALError;
use hal::layer::Dense;
use hal::model::Sequential;
use hal::optimizer::SGD;
use hal::params::DenseGenerator;
use hal::params::ParamManager;
use hal::ratio::Ratio;
use hal::tensor::Dims;
use hal::tensor::Tensor;
use hal::utils::StrMap;

fn t(rows: usize, cols: usize, data: Vec<i64>) -> Tensor {
    Tensor::new(Dims::matrix(rows, cols), data).unwrap()
}

fn dense_config(input_size: &str, output_size: &str) -> StrMap {
    let mut m = StrMap::new();
    m.insert("activation", "identity".to_string());
    m.insert("input_size", input_size.to_string());
    m.insert("output_size", output_size.to_string());
    m.insert("w_init", "zeros".to_string());
    m.insert("b_init", "zeros".to_string());
    m
}

#[test]
fn backward_delta_has_the_input_shape() {
    // forward then backward: for a [3 -> 2] dense layer and a batch of 4,
    // the propagated delta comes back as [4, 3]
    let mut pm = ParamManager::default();
    pm.add_dense(3, 2, "identity", "ones", "zeros").unwrap();
    let layer = Dense { input_size: 3, output_size: 2 };
    let x = t(4, 3, vec![1; 12]);
    let out = {
        let bundle = &mut pm.layer_storage[0];
        layer.forward(bundle, &x).unwrap()
    };
    assert_eq!(out.dims, Dims::matrix(4, 2));
    let delta = t(4, 2, vec![1; 8]);
    let back = {
        let bundle = &mut pm.layer_storage[0];
        layer.backward(bundle, &delta).unwrap()
    };
    assert_eq!(back.dims, Dims::matrix(4, 3));
}

#[test]
fn single_dense_layer_end_to_end() {
    // weight fixed at 2, bias 0, input 3, target 0, mse loss
    let mut pm = ParamManager::default();
    pm.add_dense(1, 1, "identity", "zeros", "zeros").unwrap();
    pm.set_weight(0, 0, t(1, 1, vec![2]));
    let layer = Dense { input_size: 1, output_size: 1 };
    let x = t(1, 1, vec![3]);
    let out = {
        let bundle = &mut pm.layer_storage[0];
        layer.forward(bundle, &x).unwrap()
    };
    assert_eq!(out.data, vec![6]);
    let target = t(1, 1, vec![0]);
    let lossv = hal::loss::get_loss("mse", &out, &target).unwrap();
    assert!(lossv.represents_int(18));
    let delta = hal::loss::get_loss_derivative("mse", &out, &target).unwrap();
    assert_eq!(delta.data, vec![6]);
    {
        let bundle = &mut pm.layer_storage[0];
        layer.backward(bundle, &delta).unwrap();
    }
    // weight gradient before any scaling: input * delta = 3 * 6
    assert_eq!(pm.get_delta(0, 0).data, vec![18]);
    assert_eq!(pm.get_delta(0, 1).data, vec![6]);
}

#[test]
fn plain_sgd_is_scaled_gradient_descent() {
    // momentum 0, decay 0: parameter -= (learningRate / batchSize) * gradient
    let mut pm = ParamManager::default();
    pm.add_dense(1, 1, "identity", "zeros", "zeros").unwrap();
    pm.set_weight(0, 0, t(1, 1, vec![10]));
    pm.accumulate_gradient(0, 0, &t(1, 1, vec![6])).unwrap();
    let mut opt = SGD::new(
        Ratio { num: 2, den: 1 },
        Ratio { num: 0, den: 1 },
        Ratio { num: 0, den: 1 },
    );
    opt.setup(pm.get_all_dims());
    opt.update(&mut pm, 2).unwrap();
    // (2 / 2) * 6 = 6, so 10 - 6 = 4
    assert_eq!(pm.get_weight(0, 0).data, vec![4]);
    assert_eq!(opt.iterations(), 1);
    // the update zeroes the gradients it consumed
    assert_eq!(pm.get_delta(0, 0).data, vec![0]);
}

#[test]
fn update_rejects_misaligned_velocity() {
    let mut pm = ParamManager::default();
    pm.add_dense(1, 1, "identity", "zeros", "zeros").unwrap();
    let mut opt = SGD::default();
    // velocity never allocated: two parameters expected, zero velocities
    let r = opt.update(&mut pm, 1);
    assert!(matches!(r, Err(HALError::ShapeMismatch)));
    assert_eq!(opt.iterations(), 0);
}

#[test]
fn fit_performs_epochs_times_iterations_updates() {
    let mut model = Sequential::default();
    model.add("dense", dense_config("2", "2")).unwrap();
    // the source reports 2 * batchSize samples, so 2 iterations per epoch
    let mut source = RampSource::new(2, 2, 4).unwrap();
    let losses = model.fit(&mut source, 2, 2, None).unwrap();
    assert_eq!(model.update_count(), 4);
    assert_eq!(losses.len(), 4);
}

#[test]
fn masked_backward_contributes_nothing() {
    let mut model = Sequential::default();
    model.add("dense", dense_config("1", "1")).unwrap();
    let input = t(1, 1, vec![3]);
    let target = t(1, 1, vec![7]);
    let before = model.parameter(0).unwrap();
    let preds = model.forward(&input).unwrap();
    assert_eq!(preds.len(), 1);
    let mask = vec![false];
    let losses = model.backward(&preds, &target, Some(&mask)).unwrap();
    assert!(losses.is_empty());
    let grad = model.gradient(0).unwrap();
    assert!(grad.data.iter().all(|v| *v == 0));
    let after = model.parameter(0).unwrap();
    assert_eq!(before.data, after.data);
}

#[test]
fn unmasked_backward_appends_a_loss() {
    let mut model = Sequential::default();
    model.add("dense", dense_config("1", "1")).unwrap();
    let input = t(1, 1, vec![3]);
    let target = t(1, 1, vec![7]);
    let preds = model.forward(&input).unwrap();
    let mask = vec![true];
    let losses = model.backward(&preds, &target, Some(&mask)).unwrap();
    assert_eq!(losses.len(), 1);
    // prediction 0 against target 7: half of 49
    assert!(losses[0].represents_int(0) == false);
    assert_eq!(losses[0].num, 49);
    assert_eq!(losses[0].den, 2);
}

#[test]
fn train_step_closes_one_optimizer_step() {
    let mut model = Sequential::default();
    model.add("dense", dense_config("1", "1")).unwrap();
    let input = t(1, 1, vec![3]);
    let target = t(1, 1, vec![0]);
    let losses = model.train_step(&input, &target, None, 1).unwrap();
    assert_eq!(losses.len(), 1);
    assert_eq!(model.update_count(), 1);
    // gradients are zeroed once the update is applied
    let grad = model.gradient(0).unwrap();
    assert!(grad.data.iter().all(|v| *v == 0));
}

#[test]
fn add_validates_its_configuration() {
    let mut model = Sequential::default();
    assert!(matches!(
        model.add("conv", dense_config("1", "1")),
        Err(HALError::UnsupportedLayerType)
    ));
    let mut missing = StrMap::new();
    missing.insert("activation", "identity".to_string());
    assert!(matches!(
        model.add("dense", missing),
        Err(HALError::MissingConfigKey)
    ));
    let bad = dense_config("not_a_number", "1");
    assert!(matches!(model.add("dense", bad), Err(HALError::ShapeMismatch)));
    let mut unknown_init = dense_config("1", "1");
    unknown_init.insert("w_init", "xavier".to_string());
    assert!(matches!(
        model.add("dense", unknown_init),
        Err(HALError::UnknownInitializer)
    ));
    assert_eq!(model.num_layers(), 0);
}

#[test]
fn fit_needs_at_least_one_layer() {
    let mut model = Sequential::default();
    let mut source = RampSource::new(2, 2, 4).unwrap();
    assert!(matches!(
        model.fit(&mut source, 1, 2, None),
        Err(HALError::NoLayers)
    ));
}

#[test]
fn ramp_source_reports_and_serves_its_shapes() {
    let mut source = RampSource::new(3, 2, 10).unwrap();
    let info = source.info();
    assert_eq!(info.num_samples, 10);
    assert_eq!(info.input_dims, Dims::matrix(2, 3));
    let batch = source.get_train_iter(2);
    assert_eq!(batch.input.dims, Dims::matrix(2, 3));
    assert_eq!(batch.input.data, batch.target.data);
    // the next draw is phase-shifted, not a repeat
    let batch2 = source.get_test_iter(2);
    assert_ne!(batch.input.data, batch2.input.data);
}

#[test]
fn two_layer_model_trains() {
    let mut model = Sequential::default();
    model.add("dense", dense_config("2", "3")).unwrap();
    model.add("dense", dense_config("3", "2")).unwrap();
    let mut source = RampSource::new(2, 1, 3).unwrap();
    let losses = model.fit(&mut source, 1, 1, None).unwrap();
    assert_eq!(model.update_count(), 3);
    assert_eq!(losses.len(), 3);
}

/// A source whose reported input and target extents do not pair up.
struct MismatchedSource {
    params: DataParams,
}

impl DataSouce for MismatchedSource {
    fn spec_info(&self) -> DataParams {
        self.params
    }

    fn info(&self) -> DataParams {
        self.params
    }

    fn get_train_iter(&mut self, _num_batch: u64) -> Data {
        Data {
            input: hal::tensor::fill(self.params.input_dims, 0),
            target: hal::tensor::fill(self.params.target_dims, 0),
        }
    }

    fn get_test_iter(&mut self, num_batch: u64) -> Data {
        self.get_train_iter(num_batch)
    }
}

#[test]
fn fit_fails_fast_on_mismatched_source_axes() {
    let mut model = Sequential::default();
    model.add("dense", dense_config("2", "2")).unwrap();
    let before = model.parameter(0).unwrap();
    let mut source = MismatchedSource {
        params: DataParams {
            input_dims: Dims::matrix(2, 2),
            target_dims: Dims::matrix(3, 2),
            num_samples: 4,
        },
    };
    let r = model.fit(&mut source, 1, 2, None);
    assert!(matches!(r, Err(HALError::ShapeMismatch)));
    assert_eq!(model.update_count(), 0);
    let after = model.parameter(0).unwrap();
    assert_eq!(before.data, after.data);
}

#[test]
fn fit_with_no_work_owed_succeeds() {
    let mut model = Sequential::default();
    model.add("dense", dense_config("2", "2")).unwrap();
    let mut source = RampSource::new(2, 2, 4).unwrap();
    // zero epochs: no iterations are owed, so the call succeeds untouched
    let losses = model.fit(&mut source, 0, 2, None).unwrap();
    assert!(losses.is_empty());
    assert_eq!(model.update_count(), 0);
    // a source reporting fewer samples than one batch: zero iterations
    let mut small = RampSource::new(2, 2, 1).unwrap();
    let losses = model.fit(&mut small, 3, 2, None).unwrap();
    assert!(losses.is_empty());
    assert_eq!(model.update_count(), 0);
}
