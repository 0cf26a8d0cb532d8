use hal::error::HALError;
use hal::layer::Dense;
use hal::params::DenseGenerator;
use hal::params::ParamManager;
use hal::tensor;
use hal::tensor::Dims;
use hal::tensor::Tensor;
use hal::tensor::ELEM_MAX;

fn t(rows: usize, cols: usize, data: Vec<i64>) -> Tensor {
    Tensor::new(Dims::matrix(rows, cols), data).unwrap()
}

#[test]
fn test_macro() {
    let mut pm = ParamManager::default();
    pm.add(
        "dense",
        vec![("normal", (2, 2))],
        vec![("zeros", (2, 1))],
        vec!["tanh"],
    )
    .unwrap();
    let outputs = pm.get_outputs(0);
    assert!(outputs.is_empty());
    assert_eq!(pm.num_layers(), 1);
    assert_eq!(pm.num_weights(0), 1);
    assert_eq!(pm.num_biases(0), 1);
    assert_eq!(pm.num_arrays(0), 2);
}

#[test]
fn flat_index_round_trip() {
    let mut pm = ParamManager::default();
    pm.add_dense(2, 3, "ones", "ones", "ones").unwrap();
    pm.add_dense(3, 1, "ones", "uniform", "zeros").unwrap();
    let total = pm.flattened_parameter_count();
    assert_eq!(total, 4);
    let before: Vec<Tensor> = pm.get_all_arrays();
    for i in 0..total {
        let read = pm.get_array_from_index(i).unwrap();
        pm.set_array_from_index(read, i).unwrap();
    }
    let after = pm.get_all_arrays();
    assert_eq!(before.len(), after.len());
    for i in 0..before.len() {
        assert_eq!(before[i].dims, after[i].dims);
        assert_eq!(before[i].data, after[i].data);
    }
}

#[test]
fn flat_index_out_of_range() {
    let mut pm = ParamManager::default();
    pm.add_dense(1, 1, "identity", "zeros", "zeros").unwrap();
    assert!(matches!(
        pm.get_array_from_index(2),
        Err(HALError::IndexOutOfRange)
    ));
    let arr = t(1, 1, vec![5]);
    assert!(matches!(
        pm.set_array_from_index(arr, 9),
        Err(HALError::IndexOutOfRange)
    ));
}

#[test]
fn set_array_checks_shape() {
    let mut pm = ParamManager::default();
    pm.add_dense(2, 2, "identity", "zeros", "zeros").unwrap();
    let wrong = t(1, 1, vec![5]);
    assert!(matches!(
        pm.set_array_from_index(wrong, 0),
        Err(HALError::ShapeMismatch)
    ));
}

#[test]
fn gradients_accumulate_across_backward_calls() {
    let mut pm = ParamManager::default();
    pm.add_dense(1, 1, "identity", "zeros", "zeros").unwrap();
    pm.set_weight(0, 0, t(1, 1, vec![2]));
    let layer = Dense { input_size: 1, output_size: 1 };
    let x1 = t(1, 1, vec![3]);
    let x2 = t(1, 1, vec![5]);
    {
        let bundle = &mut pm.layer_storage[0];
        layer.forward(bundle, &x1).unwrap();
        layer.forward(bundle, &x2).unwrap();
        let one = t(1, 1, vec![1]);
        layer.backward(bundle, &one).unwrap();
        layer.backward(bundle, &one).unwrap();
    }
    // two single-call gradients: 5*1 from the second cached pair, 3*1 from
    // the first; accumulation is their sum
    assert_eq!(pm.get_delta(0, 0).data, vec![8]);
    assert_eq!(pm.get_delta(0, 1).data, vec![2]);
}

#[test]
fn zeroed_gradients_keep_shapes() {
    let mut pm = ParamManager::default();
    pm.add_dense(2, 3, "identity", "ones", "ones").unwrap();
    let g = t(2, 3, vec![1, 2, 3, 4, 5, 6]);
    pm.accumulate_gradient(0, 0, &g).unwrap();
    assert_eq!(pm.get_delta(0, 0).data, vec![1, 2, 3, 4, 5, 6]);
    pm.zero_all_deltas();
    let flat = pm.get_all_deltas();
    assert_eq!(flat.len(), 2);
    assert_eq!(flat[0].dims, Dims::matrix(2, 3));
    assert!(flat[0].data.iter().all(|v| *v == 0));
    assert_eq!(flat[1].dims, Dims::matrix(3, 1));
    assert!(flat[1].data.iter().all(|v| *v == 0));
}

#[test]
fn add_rejects_unknown_initializer() {
    let mut pm = ParamManager::default();
    let r = pm.add_dense(2, 2, "identity", "xavier", "zeros");
    assert!(matches!(r, Err(HALError::UnknownInitializer)));
    assert_eq!(pm.num_layers(), 0);
}

#[test]
fn flattening_order_is_weights_then_biases_per_layer() {
    let mut pm = ParamManager::default();
    pm.add_dense(2, 3, "identity", "ones", "zeros").unwrap();
    pm.add_dense(3, 1, "identity", "zeros", "ones").unwrap();
    let dims = pm.get_all_dims();
    assert_eq!(dims.len(), 4);
    assert_eq!(dims[0], Dims::matrix(2, 3));
    assert_eq!(dims[1], Dims::matrix(3, 1));
    assert_eq!(dims[2], Dims::matrix(3, 1));
    assert_eq!(dims[3], Dims::matrix(1, 1));
    // layer 0 weights are all ones, layer 1 weights all zeros
    assert!(pm.get_array_from_index(0).unwrap().data.iter().all(|v| *v == 1));
    assert!(pm.get_array_from_index(2).unwrap().data.iter().all(|v| *v == 0));
    assert!(pm.get_array_from_index(3).unwrap().data.iter().all(|v| *v == 1));
}

#[test]
fn tensor_new_validates() {
    assert!(matches!(
        Tensor::new(Dims { rows: 0, cols: 1, time: 1, extra: 1 }, vec![]),
        Err(HALError::ShapeMismatch)
    ));
    assert!(matches!(
        Tensor::new(Dims::matrix(1, 2), vec![1]),
        Err(HALError::ShapeMismatch)
    ));
    assert!(matches!(
        Tensor::new(Dims::matrix(1, 1), vec![ELEM_MAX + 1]),
        Err(HALError::Overflow)
    ));
    assert!(Tensor::new(Dims::matrix(1, 1), vec![ELEM_MAX]).is_ok());
}

#[test]
fn elementwise_ops_are_exact() {
    let a = t(1, 3, vec![1, -2, 3]);
    let b = t(1, 3, vec![10, 20, -30]);
    assert_eq!(tensor::add(&a, &b).unwrap().data, vec![11, 18, -27]);
    assert_eq!(tensor::sub(&a, &b).unwrap().data, vec![-9, -22, 33]);
    assert_eq!(tensor::mul(&a, &b).unwrap().data, vec![10, -40, -90]);
}

#[test]
fn add_reports_overflow() {
    let big = tensor::fill(Dims::matrix(1, 1), ELEM_MAX);
    assert!(matches!(
        tensor::add(&big, &big),
        Err(HALError::Overflow)
    ));
}

#[test]
fn matmul_exact_values() {
    // rows of a: (1, 2) and (3, 4); column-major storage
    let a = t(2, 2, vec![1, 3, 2, 4]);
    let b = t(2, 1, vec![5, 6]);
    let r = tensor::matmul(&a, &b).unwrap();
    assert_eq!(r.dims, Dims::matrix(2, 1));
    assert_eq!(r.data, vec![17, 39]);
}

#[test]
fn transpose_and_col_sums() {
    let a = t(2, 2, vec![1, 3, 2, 4]);
    let at = tensor::transpose(&a);
    assert_eq!(at.dims, Dims::matrix(2, 2));
    assert_eq!(at.data, vec![1, 2, 3, 4]);
    let s = tensor::col_sums(&a).unwrap();
    assert_eq!(s.dims, Dims::matrix(2, 1));
    assert_eq!(s.data, vec![4, 6]);
}

#[test]
fn bias_broadcasts_across_rows() {
    let x = t(2, 2, vec![1, 3, 2, 4]);
    let b = t(2, 1, vec![10, 20]);
    let r = tensor::add_bias(&x, &b).unwrap();
    assert_eq!(r.data, vec![11, 13, 22, 24]);
}

#[test]
fn slice_picks_one_time_step() {
    let full = Tensor::new(
        Dims { rows: 1, cols: 2, time: 2, extra: 1 },
        vec![1, 2, 3, 4],
    )
    .unwrap();
    let s0 = tensor::slice_time(&full, 0);
    let s1 = tensor::slice_time(&full, 1);
    assert_eq!(s0.data, vec![1, 2]);
    assert_eq!(s1.data, vec![3, 4]);
    assert_eq!(s1.dims, Dims::matrix(1, 2));
}

#[test]
fn scaling_truncates_toward_zero() {
    let a = t(1, 4, vec![-3, 3, -4, 5]);
    let half = tensor::scale_tdiv(&a, 1, 2).unwrap();
    assert_eq!(half.data, vec![-1, 1, -2, 2]);
    let neg = tensor::scale_tdiv(&a, -1, 2).unwrap();
    assert_eq!(neg.data, vec![1, -1, 2, -2]);
}

#[test]
fn total_sum_is_exact() {
    let a = t(2, 2, vec![1, -2, 3, -4]);
    assert_eq!(tensor::total_sum(&a), -2);
}

#[test]
fn bundle_getters_and_setters() {
    let mut pm = ParamManager::default();
    pm.add_dense(2, 2, "identity", "ones", "ones").unwrap();
    assert!(pm.get_params(0).is_ok());
    assert!(matches!(pm.get_params(1), Err(HALError::IndexOutOfRange)));
    assert_eq!(pm.get_weights(0).len(), 1);
    assert_eq!(pm.get_biases(0).len(), 1);
    assert_eq!(pm.get_deltas(0).len(), 2);
    pm.set_bias(0, 0, t(2, 1, vec![7, 8]));
    assert_eq!(pm.get_params(0).unwrap().biases[0].data, vec![7, 8]);
    pm.set_delta(0, 1, t(2, 1, vec![1, 1]));
    assert_eq!(pm.get_delta(0, 1).data, vec![1, 1]);
}

#[test]
fn affine_helpers_compute_the_layer_math() {
    // rows of w: (1, 0) and (0, 1): the identity weight matrix
    let w = t(2, 2, vec![1, 0, 0, 1]);
    let b = t(2, 1, vec![10, 20]);
    let x = t(1, 2, vec![3, 4]);
    let out = hal::layer::linear(&x, &w, Some(&b), "identity").unwrap();
    assert_eq!(out.data, vec![13, 24]);
    let no_bias = hal::layer::linear(&x, &w, None, "relu").unwrap();
    assert_eq!(no_bias.data, vec![3, 4]);
    let delta = t(1, 2, vec![1, 2]);
    let (local, dw, db) = hal::layer::linear_backward(&delta, &x, &out, "identity").unwrap();
    assert_eq!(local.data, vec![1, 2]);
    assert_eq!(dw.dims, Dims::matrix(2, 2));
    assert_eq!(dw.data, vec![3, 4, 6, 8]);
    assert_eq!(db.data, vec![1, 2]);
}

#[test]
fn duplicate_is_a_deep_copy() {
    let a = t(1, 2, vec![5, 6]);
    let c = a.duplicate();
    assert_eq!(c.data, a.data);
    assert_eq!(c.dims, a.dims);
    assert_eq!(a.at(0, 1, 0), 6);
    assert_eq!(c.at2(0, 0), 5);
}
