//! An end-to-end run of the pipeline on a tiny hand-made dataset, with the
//! caller's side — the numeric fit and the log-likelihood scoring — played
//! exactly as the reporting layer plays it.

use spamton_rs::balance::balance;
use spamton_rs::classify::{decide, ScoreOrder};
use spamton_rs::email::{EmailType, Entry, EntryFeatures, FEATURE_COUNT};
use spamton_rs::model::{feature_columns, ClassModel, FeatureDistribution};
use spamton_rs::score::score_pairs;
use spamton_rs::split::{holdout_split, Ratios};
use statrs::distribution::{Continuous, Normal};

const PARAMETER_FLOOR: f64 = 1e-31;
const DENSITY_FLOOR: f64 = 1e-32;

fn entry_with_first(v: f64, label: EmailType) -> Entry {
    let mut words = [0u64; 57];
    words[0] = v.to_bits();
    for w in words.iter_mut().skip(1) {
        *w = 0f64.to_bits();
    }
    Entry(EntryFeatures(words), label)
}

/// Trains one class model from a class-pure sequence, as the caller does:
/// per-column sample mean and population standard deviation, both floored.
fn train(records: &Vec<Entry>) -> ClassModel {
    let cols = feature_columns(records).expect("a non-empty training sequence");
    let mut params: Vec<FeatureDistribution> = Vec::new();
    for col in &cols {
        let values: Vec<f64> = col.iter().map(|w| f64::from_bits(*w)).collect();
        let n = values.len() as f64;
        let mean = values.iter().sum::<f64>() / n;
        let variance = values.iter().map(|x| (x - mean).powi(2)).sum::<f64>() / n;
        params.push(FeatureDistribution {
            mean: f64::max(mean, PARAMETER_FLOOR).to_bits(),
            std_dev: f64::max(variance.sqrt(), PARAMETER_FLOOR).to_bits(),
        });
    }
    assert_eq!(params.len(), FEATURE_COUNT);
    ClassModel::from_params(params)
}

/// Sums the floored log-densities of one feature vector under a model.
fn log_probability(features: &EntryFeatures, model: &ClassModel) -> f64 {
    let mut sum = 0.0;
    for (word, d) in score_pairs(features, model) {
        let gaussian = Normal::new(f64::from_bits(d.mean), f64::from_bits(d.std_dev))
            .expect("floored parameters are positive");
        let x = f64::from_bits(word);
        sum += f64::max(gaussian.pdf(x), DENSITY_FLOOR).ln();
    }
    sum
}

#[test]
fn tiny_dataset_classifies_a_spam_like_record_as_spam() {
    let mut data: Vec<Entry> = Vec::new();
    for _ in 0..5 {
        data.push(entry_with_first(1.0, EmailType::Spam));
    }
    for _ in 0..5 {
        data.push(entry_with_first(10.0, EmailType::Ham));
    }

    let ratios = Ratios::new(8, 1, 1, 10).unwrap();
    let (adjust, validation, testing) = holdout_split(data, &ratios);
    assert_eq!(adjust.len(), 8);
    assert_eq!(adjust.len() + validation.len() + testing.len(), 10);

    // Eight of ten records always cover both classes, and the records of a
    // class are identical, so the trained models do not depend on the
    // shuffle's choice.
    let spam_data = balance(&adjust, EmailType::Spam).unwrap();
    let ham_data = balance(&adjust, EmailType::Ham).unwrap();
    assert_eq!(spam_data.len(), 8);
    assert_eq!(ham_data.len(), 8);

    let spam_model = train(&spam_data);
    let ham_model = train(&ham_data);

    let probe = entry_with_first(1.0, EmailType::Spam);
    let spam_score = log_probability(&probe.0, &spam_model);
    let ham_score = log_probability(&probe.0, &ham_model);
    assert!(
        spam_score > ham_score,
        "expected a strict win for spam, got {} vs {}",
        spam_score,
        ham_score
    );

    let order = if spam_score > ham_score {
        ScoreOrder::SpamHigher
    } else if spam_score < ham_score {
        ScoreOrder::HamHigher
    } else {
        ScoreOrder::Tied
    };
    assert_eq!(decide(order), EmailType::Spam);
}

#[test]
fn identical_models_tie_exactly() {
    let records = vec![
        entry_with_first(3.0, EmailType::Spam),
        entry_with_first(5.0, EmailType::Spam),
    ];
    let model_a = train(&records);
    let model_b = train(&records);
    let probe = entry_with_first(4.0, EmailType::Ham);
    let score_a = log_probability(&probe.0, &model_a);
    let score_b = log_probability(&probe.0, &model_b);
    assert_eq!(score_a, score_b);
}
