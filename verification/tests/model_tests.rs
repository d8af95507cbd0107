use spamton_rs::email::{EmailType, Entry, EntryFeatures, FEATURE_COUNT};
use spamton_rs::errors::EmptyInputError;
use spamton_rs::model::{feature_columns, ClassModel, FeatureDistribution};

const PARAMETER_FLOOR: f64 = 1e-31;

fn entry(features: [u64; 57], label: EmailType) -> Entry {
    Entry(EntryFeatures(features), label)
}

/// The caller's per-column fit: sample mean and population standard
/// deviation, both floored to keep the Gaussian non-degenerate.
fn fit(column: &[u64]) -> (f64, f64) {
    let values: Vec<f64> = column.iter().map(|w| f64::from_bits(*w)).collect();
    let n = values.len() as f64;
    let mean = values.iter().sum::<f64>() / n;
    let variance = values.iter().map(|x| (x - mean).powi(2)).sum::<f64>() / n;
    (
        f64::max(mean, PARAMETER_FLOOR),
        f64::max(variance.sqrt(), PARAMETER_FLOOR),
    )
}

#[test]
fn feature_columns_shape_and_values() {
    let mut a = [0u64; 57];
    a[0] = 10;
    a[56] = 11;
    let mut b = [0u64; 57];
    b[0] = 20;
    b[56] = 21;
    let data = vec![entry(a, EmailType::Spam), entry(b, EmailType::Spam)];
    let cols = feature_columns(&data).unwrap();
    assert_eq!(cols.len(), FEATURE_COUNT);
    for col in &cols {
        assert_eq!(col.len(), 2);
    }
    assert_eq!(cols[0], vec![10, 20]);
    assert_eq!(cols[56], vec![11, 21]);
    assert_eq!(cols[30], vec![0, 0]);
}

#[test]
fn get_feature_is_bounds_checked() {
    let mut words = [0u64; 57];
    words[0] = 7;
    words[56] = 9;
    let e = entry(words, EmailType::Ham);
    assert_eq!(e.get_feature(0), Some(7));
    assert_eq!(e.get_feature(56), Some(9));
    assert_eq!(e.get_feature(57), None);
    assert_eq!(e.get_feature(usize::MAX), None);
}

#[test]
fn feature_columns_empty_input_fails() {
    let data: Vec<Entry> = Vec::new();
    assert_eq!(feature_columns(&data), Err(EmptyInputError));
}

#[test]
fn class_model_holds_one_distribution_per_feature() {
    let dists: Vec<FeatureDistribution> = (0..FEATURE_COUNT)
        .map(|i| FeatureDistribution {
            mean: (i as u64) + 1,
            std_dev: (i as u64) + 2,
        })
        .collect();
    let model = ClassModel::from_params(dists);
    assert_eq!(model.len(), FEATURE_COUNT);
    let d0 = model.get(0).unwrap();
    assert_eq!(d0.mean, 1);
    assert_eq!(d0.std_dev, 2);
    let d56 = model.get(56).unwrap();
    assert_eq!(d56.mean, 57);
    assert!(model.get(57).is_none());
}

#[test]
fn score_pairs_aligns_each_feature_with_its_own_distribution() {
    let dists: Vec<FeatureDistribution> = (0..FEATURE_COUNT)
        .map(|i| FeatureDistribution {
            mean: 1000 + i as u64,
            std_dev: 2000 + i as u64,
        })
        .collect();
    let model = ClassModel::from_params(dists);
    let mut words = [0u64; 57];
    for (i, w) in words.iter_mut().enumerate() {
        *w = i as u64;
    }
    let features = EntryFeatures(words);
    let pairs = spamton_rs::score::score_pairs(&features, &model);
    assert_eq!(pairs.len(), FEATURE_COUNT);
    for (i, (word, d)) in pairs.iter().enumerate() {
        assert_eq!(*word, i as u64);
        assert_eq!(d.mean, 1000 + i as u64);
        assert_eq!(d.std_dev, 2000 + i as u64);
    }
}

#[test]
fn constant_column_fits_to_its_value_with_floored_deviation() {
    // A column constant at v >= the floor: the trained mean is v itself and
    // the zero standard deviation floors to the minimum parameter value.
    let v: f64 = 2.5;
    let mut features = [0u64; 57];
    features[0] = v.to_bits();
    let data = vec![
        entry(features, EmailType::Spam),
        entry(features, EmailType::Spam),
        entry(features, EmailType::Spam),
    ];
    let cols = feature_columns(&data).unwrap();
    let (mean, std_dev) = fit(&cols[0]);
    assert_eq!(mean, v);
    assert_eq!(std_dev, PARAMETER_FLOOR);
}
