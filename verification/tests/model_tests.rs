use muse_core::muse_model::{average_from_front_electrodes, MuseMessageType, MuseModel};

fn b32(x: f32) -> u32 {
    x.to_bits()
}

fn exp32(bits: u32) -> u32 {
    std::f32::consts::E.powf(f32::from_bits(bits)).to_bits()
}

#[test]
fn test_average_from_front_electrodes() {
    let band = [b32(1.0), b32(2.0), b32(2.0), b32(1.0)];
    assert_eq!(b32(2.0), average_from_front_electrodes(&band));
}

#[test]
fn test_handle_band_updates() {
    let mut model = MuseModel::new();
    let updated = model.handle_muse_message(&MuseMessageType::Alpha {
        a: b32(1.0),
        b: b32(2.0),
        c: b32(2.0),
        d: b32(1.0),
    });
    assert!(updated);
    assert_eq!(model.alpha, [b32(1.0), b32(2.0), b32(2.0), b32(1.0)]);

    let updated = model.handle_muse_message(&MuseMessageType::Batt { batt: 73 });
    assert!(!updated);
    assert_eq!(model.batt, 73);

    let updated = model.handle_muse_message(&MuseMessageType::Eeg {
        a: b32(7.0),
        b: b32(7.0),
        c: b32(7.0),
        d: b32(7.0),
    });
    assert!(!updated);
}

#[test]
fn test_countdowns() {
    let mut model = MuseModel::new();
    assert!(!model.is_blink());
    assert!(!model.is_jaw_clench());
    assert!(!model.is_touching_forehead());

    model.handle_muse_message(&MuseMessageType::Blink { blink: true });
    model.handle_muse_message(&MuseMessageType::JawClench { clench: true });
    // The forehead countdown arms when contact is lost.
    model.handle_muse_message(&MuseMessageType::TouchingForehead { touch: false });
    assert!(model.is_blink());
    assert!(model.is_jaw_clench());
    assert!(model.is_touching_forehead());

    for _ in 0..5 {
        assert!(model.is_blink());
        model.count_down();
    }
    assert!(!model.is_blink());
    assert!(!model.is_jaw_clench());
    assert!(!model.is_touching_forehead());
}

#[test]
fn test_affect_engine_scenario() {
    let mut model = MuseModel::new();
    model.handle_muse_message(&MuseMessageType::Alpha {
        a: b32(1.0),
        b: b32(2.0),
        c: b32(2.0),
        d: b32(1.0),
    });
    model.handle_muse_message(&MuseMessageType::Theta {
        a: b32(1.0),
        b: b32(1.0),
        c: b32(1.0),
        d: b32(1.0),
    });

    // Frontal asymmetry: e to the difference of the front alpha powers.
    let front_assymetry = exp32(model.valence_exponent());
    assert_eq!(front_assymetry, b32(1.0));
    // Absolute valence: that factor over the front theta average, 1.0.
    assert_eq!(model.calc_absolute_valence(front_assymetry), b32(1.0));
    // Absolute arousal: e to the posterior difference, again 1.0.
    let absolute_arousal = exp32(model.arousal_exponent());
    assert_eq!(absolute_arousal, b32(1.0));

    let (valence, arousal) = model.sample(front_assymetry, absolute_arousal);
    // One observation each: mean 1.0 and deviation 0.0, so the smoothed
    // signal normalizes to a quiet NaN rather than a calibrated value.
    assert!(f32::from_bits(valence.unwrap()).is_nan());
    assert!(f32::from_bits(arousal.unwrap()).is_nan());
    assert_eq!(model.valence.history_len(), 1);
    assert_eq!(model.arousal.history_len(), 1);
}

#[test]
fn test_sample_rejects_repeats() {
    let mut model = MuseModel::new();
    model.handle_muse_message(&MuseMessageType::Alpha {
        a: b32(1.0),
        b: b32(2.0),
        c: b32(2.0),
        d: b32(1.0),
    });
    model.handle_muse_message(&MuseMessageType::Theta {
        a: b32(1.0),
        b: b32(1.0),
        c: b32(1.0),
        d: b32(1.0),
    });
    let front_assymetry = exp32(model.valence_exponent());
    let absolute_arousal = exp32(model.arousal_exponent());
    model.sample(front_assymetry, absolute_arousal);
    // The same raw values again: both statistics reject the repeat and
    // keep a single observation.
    model.sample(front_assymetry, absolute_arousal);
    assert_eq!(model.valence.history_len(), 1);
    assert_eq!(model.arousal.history_len(), 1);
}
