use hal::activations;
use hal::error::HALError;
use hal::initializations;
use hal::initializations::INIT_MAX;
use hal::loss;
use hal::optimizer::get_optimizer_with_defaults;
use hal::ratio::Ratio;
use hal::tensor::Dims;
use hal::tensor::Tensor;
use hal::utils;
use hal::utils::StrMap;

fn t(rows: usize, cols: usize, data: Vec<i64>) -> Tensor {
    Tensor::new(Dims::matrix(rows, cols), data).unwrap()
}

#[test]
fn macro_hashmap() {
    let input_dims = 128;
    let output_dims = 128;
    let mut hm = StrMap::new();
    hm.insert("activation", "tanh".to_string());
    hm.insert("input_size", input_dims.to_string());
    hm.insert("output_size", output_dims.to_string());
    assert_eq!(hm.len(), 3);
    assert_eq!(hm.get("activation").unwrap(), "tanh");
    assert_eq!(hm.get("input_size").unwrap(), "128");
    assert_eq!(hm.get("output_size").unwrap(), "128");
    assert!(hm.get("w_init").is_none());
}

#[test]
fn str_map_later_binding_wins() {
    let mut hm = StrMap::new();
    hm.insert("k", "a".to_string());
    hm.insert("k", "b".to_string());
    assert_eq!(hm.get("k").unwrap(), "b");
}

#[test]
fn relu_and_identity_activations() {
    let x = t(1, 4, vec![-5, 0, 2, 7]);
    let r = activations::get_activation("relu", &x).unwrap();
    assert_eq!(r.data, vec![0, 0, 2, 7]);
    let i = activations::get_activation("identity", &x).unwrap();
    assert_eq!(i.data, vec![-5, 0, 2, 7]);
    let dr = activations::get_derivative("relu", &r).unwrap();
    assert_eq!(dr.data, vec![0, 0, 1, 1]);
    let di = activations::get_derivative("identity", &i).unwrap();
    assert_eq!(di.data, vec![1, 1, 1, 1]);
}

#[test]
fn unknown_activation_is_rejected() {
    let x = t(1, 1, vec![1]);
    assert!(matches!(
        activations::get_activation("tanh", &x),
        Err(HALError::UnknownActivation)
    ));
    assert!(matches!(
        activations::get_derivative("softmax", &x),
        Err(HALError::UnknownActivation)
    ));
}

#[test]
fn initializers_fill_exactly_or_within_bounds() {
    let d = Dims::matrix(3, 2);
    let z = initializations::get_initialization("zeros", d).unwrap();
    assert!(z.data.iter().all(|v| *v == 0));
    let o = initializations::get_initialization("ones", d).unwrap();
    assert!(o.data.iter().all(|v| *v == 1));
    let n = initializations::get_initialization("normal", d).unwrap();
    assert!(n.data.iter().all(|v| -INIT_MAX <= *v && *v <= INIT_MAX));
    let u = initializations::get_initialization("uniform", d).unwrap();
    assert!(u.data.iter().all(|v| 0 <= *v && *v <= INIT_MAX));
    assert!(matches!(
        initializations::get_initialization("xavier", d),
        Err(HALError::UnknownInitializer)
    ));
}

#[test]
fn mse_is_half_the_mean_squared_error() {
    let pred = t(1, 1, vec![6]);
    let target = t(1, 1, vec![0]);
    let sq = loss::l2_vec(&pred, &target).unwrap();
    assert_eq!(sq.data, vec![36]);
    let v = loss::mse(&pred, &target).unwrap();
    assert_eq!(v.num, 36);
    assert_eq!(v.den, 2);
    assert!(v.represents_int(18));
    let d = loss::mse_derivative(&pred, &target).unwrap();
    assert_eq!(d.data, vec![6]);
}

#[test]
fn mse_averages_over_all_elements() {
    let pred = t(1, 2, vec![3, 5]);
    let target = t(1, 2, vec![1, 1]);
    // squared errors 4 and 16; half their mean is 20 / 4
    let v = loss::get_loss("mse", &pred, &target).unwrap();
    assert_eq!(v.num, 20);
    assert_eq!(v.den, 4);
    assert!(v.represents_int(5));
}

#[test]
fn unknown_loss_is_rejected() {
    let pred = t(1, 1, vec![1]);
    let target = t(1, 1, vec![0]);
    assert!(matches!(
        loss::get_loss("hinge", &pred, &target),
        Err(HALError::UnknownLoss)
    ));
    assert!(matches!(
        loss::get_loss_derivative("hinge", &pred, &target),
        Err(HALError::UnknownLoss)
    ));
}

#[test]
fn optimizer_registry_ignores_ascii_case() {
    assert!(get_optimizer_with_defaults("sgd").is_ok());
    assert!(get_optimizer_with_defaults("SGD").is_ok());
    assert!(get_optimizer_with_defaults("Sgd").is_ok());
    assert!(matches!(
        get_optimizer_with_defaults("adam"),
        Err(HALError::UnknownOptimizer)
    ));
}

#[test]
fn parse_usize_exact() {
    assert_eq!(utils::parse_usize("128"), Some(128));
    assert_eq!(utils::parse_usize("0"), Some(0));
    assert_eq!(utils::parse_usize(""), None);
    assert_eq!(utils::parse_usize("12a"), None);
    assert_eq!(utils::parse_usize("-3"), None);
    assert_eq!(utils::parse_usize("99999999999999999999999999"), None);
}

#[test]
fn string_comparisons() {
    assert!(utils::str_eq("mse", "mse"));
    assert!(!utils::str_eq("mse", "msa"));
    assert!(utils::str_eq_ci("SGD", "sgd"));
    assert!(!utils::str_eq_ci("sgd", "sg"));
}

#[test]
fn ratio_value_tests() {
    let a = Ratio { num: 36, den: 2 };
    let b = Ratio { num: 18, den: 1 };
    assert!(a.same_value(&b));
    assert!(a.represents_int(18));
    assert!(!a.represents_int(17));
    let c = Ratio::new(1, 1000);
    assert!(!c.represents_int(0) || c.num == 0);
    assert_eq!(Ratio::from_int(7).num, 7);
}

#[test]
fn error_descriptions_are_stable() {
    assert_eq!(HALError::UnknownActivation.describe(), "unknown activation");
    assert_eq!(HALError::Overflow.describe(), "overflow");
    assert_eq!(HALError::NoLayers.describe(), "no layers");
}
