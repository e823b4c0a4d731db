use muse_core::stats32;
use muse_core::stats64;
use muse_core::StatConfig;

fn b32(x: f32) -> u32 {
    x.to_bits()
}

fn b64(x: f64) -> u64 {
    x.to_bits()
}

#[test]
fn test_no_mean() {
    let v: Vec<u64> = Vec::new();
    assert_eq!(None, stats64::mean(&v));
}

#[test]
fn test_mean() {
    let mut v = vec![b64(1.0), b64(3.0)];
    assert_eq!(b64(2.0), stats64::mean(&v).unwrap());

    v.push(b64(5.0));
    assert_eq!(b64(3.0), stats64::mean(&v).unwrap());
}

#[test]
fn test_no_deviation() {
    let v: Vec<u64> = Vec::new();
    let mean = stats64::mean(&v);
    assert_eq!(None, stats64::std_deviation(&v, mean));
}

#[test]
fn test_deviation() {
    let mut v = vec![b64(1.0)];
    let mut mean = stats64::mean(&v);
    assert_eq!(b64(0.0), stats64::std_deviation(&v, mean).unwrap());

    v.push(b64(3.0));
    mean = stats64::mean(&v);
    assert_eq!(b64(1.0), stats64::std_deviation(&v, mean).unwrap());

    v.push(b64(5.0));
    v.push(b64(7.0));
    mean = stats64::mean(&v);
    assert_eq!(b64(2.23606797749979), stats64::std_deviation(&v, mean).unwrap());
}

#[test]
fn test_new_normalized_value() {
    let nv: stats32::NormalizedValue = stats32::NormalizedValue::new();

    assert_eq!(nv.current(), None);
    assert_eq!(nv.min(), None);
    assert_eq!(nv.max(), None);
    assert_eq!(nv.moving_average(), None);
    assert_eq!(nv.deviation(), None);
    assert_eq!(nv._percent(), None);
    assert_eq!(nv.normalize(nv.moving_average()), None);
    assert_eq!(nv.history_len(), 0);
}

#[test]
fn test_single_normalized_value() {
    let mut nv: stats64::NormalizedValue = stats64::NormalizedValue::new();
    nv.set(b64(1.0));

    assert_eq!(nv.current(), Some(b64(1.0)));
    assert_eq!(nv.min(), Some(b64(1.0)));
    assert_eq!(nv.max(), Some(b64(1.0)));
    assert_eq!(nv.moving_average(), Some(b64(1.0)));
    assert_eq!(nv.mean(), Some(b64(1.0)));
    assert_eq!(nv.deviation(), Some(b64(0.0)));
    assert_eq!(nv._percent(), Some(b64(0.0)));
    assert_eq!(nv.history_len(), 1);
}

#[test]
fn test_two_normalized_values_second_normalized() {
    let mut nv: stats64::NormalizedValue = stats64::NormalizedValue::new();
    nv.set(b64(1.0));
    nv.set(b64(3.0));

    assert_eq!(nv.current(), Some(b64(3.0)));
    assert_eq!(nv.min(), Some(b64(1.0)));
    assert_eq!(nv.max(), Some(b64(3.0)));
    assert_eq!(nv.moving_average(), Some(b64(2.0)));
    assert_eq!(nv.mean(), Some(b64(2.0)));
    assert_eq!(nv.deviation(), Some(b64(1.0)));
    assert_eq!(nv.history_len(), 2);
}

#[test]
fn test_normalized_value_history() {
    const LENGTH: usize = 120;
    let mut nv: stats64::NormalizedValue = stats64::NormalizedValue::new();

    for i in 0..LENGTH {
        nv.set(b64(i as f64));
    }

    assert_eq!(nv.min(), Some(b64(0.0)));
    assert_eq!(nv.max(), Some(b64((LENGTH - 1) as f64)));
    assert_eq!(nv.moving_average(), Some(b64(115.0)));
    assert_eq!(nv.mean(), Some(b64(59.5)));
    assert_eq!(nv.deviation(), Some(b64(34.63981331743384)));
    assert_eq!(nv.normalize(nv.moving_average()), Some(b64(1.602202630002843)));
    assert_eq!(nv.normalize(nv.min()), Some(b64(-1.7176766934264711)));
    assert_eq!(nv.normalize(nv.max()), Some(b64(1.7176766934264711)));
    assert_eq!(nv.history_len(), 120);
    assert_eq!(nv._percent_normalization_complete(), 1.0f32.to_bits());
}

#[test]
fn test_normalized_value_history_with_negative_values() {
    let mut nv: stats32::NormalizedValue = stats32::NormalizedValue::new();

    for i in -100..101 {
        nv.set(b32(i as f32));
    }

    assert_eq!(nv.min(), Some(b32(-100.0)));
    assert_eq!(nv.max(), Some(b32(100.0)));
    assert_eq!(nv.moving_average(), Some(b32(96.0)));
    assert_eq!(nv.mean(), Some(b32(40.5)));
    assert_eq!(nv.deviation(), Some(b32(34.63981331743384)));
    assert_eq!(nv.normalize(nv.moving_average()), Some(b32(1.6022027)));
    assert_eq!(nv.normalize(nv.min()), Some(b32(-4.0560265)));
    assert_eq!(nv.normalize(nv.max()), Some(b32(1.7176768)));
    assert_eq!(nv.history_len(), 120);
}

#[test]
fn test_duplicate_value_rejected() {
    let mut nv: stats64::NormalizedValue = stats64::NormalizedValue::new();
    assert!(nv.set(b64(5.0)));

    let mean_before = nv.mean();
    let history_before = nv.history_len();
    let current_before = nv.current();

    assert!(!nv.set(b64(5.0)));
    assert_eq!(nv.mean(), mean_before);
    assert_eq!(nv.history_len(), history_before);
    assert_eq!(nv.current(), current_before);
}

#[test]
fn test_nonfinite_rejected() {
    let mut nv: stats64::NormalizedValue = stats64::NormalizedValue::new();
    assert!(!nv.set(b64(f64::NAN)));
    assert!(!nv.set(b64(f64::INFINITY)));
    assert!(!nv.set(b64(f64::NEG_INFINITY)));
    assert_eq!(nv.current(), None);
    assert_eq!(nv.history_len(), 0);

    assert!(nv.set(b64(2.0)));
    assert!(!nv.set(b64(f64::NAN)));
    assert!(!nv.set(b64(f64::INFINITY)));
    assert!(!nv.set(b64(f64::NEG_INFINITY)));
    assert_eq!(nv.current(), Some(b64(2.0)));
    assert_eq!(nv.history_len(), 1);
}

#[test]
fn test_history_eviction() {
    let mut nv: stats64::NormalizedValue = stats64::NormalizedValue::new();
    for i in 0..121 {
        assert!(nv.set(b64(i as f64)));
    }
    // The oldest observation, 0.0, left the window: the mean is that of
    // 1.0 through 120.0.
    assert_eq!(nv.history_len(), 120);
    assert_eq!(nv.mean(), Some(b64(60.5)));
    assert_eq!(nv.min(), Some(b64(0.0)));
    assert_eq!(nv.max(), Some(b64(120.0)));
}

#[test]
fn test_moving_average_window_caps() {
    let mut nv: stats64::NormalizedValue = stats64::NormalizedValue::new();
    for i in 0..9 {
        nv.set(b64(i as f64));
        assert_eq!(nv.moving_average_len(), (i + 1) as usize);
    }
    // The window evicts as soon as a push reaches its length, so it holds
    // one less than the configured ten.
    nv.set(b64(9.0));
    assert_eq!(nv.moving_average_len(), 9);
    nv.set(b64(10.0));
    assert_eq!(nv.moving_average_len(), 9);
    // 2.0 through 10.0 remain.
    assert_eq!(nv.moving_average(), Some(b64(6.0)));
}

#[test]
fn test_normalize_none_is_none() {
    let mut nv: stats64::NormalizedValue = stats64::NormalizedValue::new();
    assert_eq!(nv.normalize(None), None);
    assert_eq!(nv.normalize(Some(b64(1.0))), None);
    nv.set(b64(4.0));
    assert_eq!(nv.normalize(None), None);
    // One sample: mean 4.0, deviation 0.0, so normalizing its own mean
    // divides zero by zero and the quiet NaN passes through.
    let r = nv.normalize(Some(b64(4.0))).unwrap();
    assert!(f64::from_bits(r).is_nan());
}

#[test]
fn test_percent_position() {
    let mut nv: stats64::NormalizedValue = stats64::NormalizedValue::new();
    nv.set(b64(1.0));
    nv.set(b64(3.0));
    // The current value 3.0 sits at the top of the 1.0..3.0 range.
    assert_eq!(nv._percent(), Some(b64(100.0)));
    nv.set(b64(2.0));
    assert_eq!(nv._percent(), Some(b64(50.0)));
}

#[test]
fn test_custom_windows() {
    let mut nv = stats64::NormalizedValue::with_config(StatConfig {
        history_window: 3,
        moving_average_window: 2,
    });
    for i in 1..5 {
        assert!(nv.set(b64(i as f64)));
    }
    // History keeps the newest three of 1.0..4.0; the smoothing window
    // keeps one value.
    assert_eq!(nv.history_len(), 3);
    assert_eq!(nv.mean(), Some(b64(3.0)));
    assert_eq!(nv.moving_average_len(), 1);
    assert_eq!(nv.moving_average(), Some(b64(4.0)));
}
