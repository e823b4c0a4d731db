use muse_core::view::{_range_raw_values_to_0_to_9, filename, wrap_eeg_derived_value_index};

#[test]
fn test_wrap_eeg_derived_value_index() {
    let i = 4;
    let next_i = 0;

    assert_eq!(next_i, wrap_eeg_derived_value_index(i));
}

#[test]
fn test_wrap_eeg_derived_value_index_advances() {
    assert_eq!(1, wrap_eeg_derived_value_index(0));
    assert_eq!(2, wrap_eeg_derived_value_index(1));
    assert_eq!(0, wrap_eeg_derived_value_index(9));
}

#[test]
fn test_range_small_number() {
    let expected = 0;
    let val = -100.0f32;

    assert_eq!(_range_raw_values_to_0_to_9(val.to_bits()), expected);
}

#[test]
fn test_range_large_number() {
    let expected = 9;
    let val = 100.0f32;

    assert_eq!(_range_raw_values_to_0_to_9(val.to_bits()), expected);
}

#[test]
fn test_range_middle_number() {
    let expected = 5;
    let val = 0.0f32;

    assert_eq!(_range_raw_values_to_0_to_9(val.to_bits()), expected);
}

#[test]
fn test_range_nan_is_lowest() {
    assert_eq!(_range_raw_values_to_0_to_9(f32::NAN.to_bits()), 0);
}

#[test]
fn test_filename() {
    assert_eq!("frame7.png", filename("frame", 7).as_str());
    assert_eq!("m120.png", filename("m", 120).as_str());
    assert_eq!("0.png", filename("", 0).as_str());
}
