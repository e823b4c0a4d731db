use vstd::prelude::*;

use crate::ieee32::add_32;
use crate::ieee32::add_bits32;
use crate::ieee32::div_32;
use crate::ieee32::div_bits32;
use crate::ieee32::of_count_32;
use crate::ieee32::of_count_bits32;
use crate::ieee32::sub_32;
use crate::ieee32::sub_bits32;
use crate::stats32::NormalizedValue;
use crate::stats32::accepts;
use crate::stats32::empty_model;
use crate::stats32::mean_bits;
use crate::stats32::normalize_bits;
use crate::stats32::spec_observe;
use crate::stats32::wf;
use crate::HISTORY_LENGTH;
use crate::WINDOW_LENGTH;

verus! {

// The model layer: the most recent per-channel band powers from the
// headset, myoelectric-interference countdowns, and the two streaming
// statistics that calibrate the derived valence and arousal signals.
// Band powers are held as encoded single-precision values.  The one step
// this module cannot take itself is the natural exponential inside the
// affect formulas -- the caller applies it to the exponents computed here
// and hands the result back.

/// How long a forehead-contact report stays current, in ticks.
pub const FOREHEAD_COUNTDOWN: i32 = 5;

/// How long a blink report stays current, in ticks.
pub const BLINK_COUNTDOWN: i32 = 5;

/// How long a jaw-clench report stays current, in ticks.
pub const CLENCH_COUNTDOWN: i32 = 5;

/// Measurement array index for the first electrode.
pub const TP9: usize = 0;

/// Measurement array index for the second electrode.
pub const AF7: usize = 1;

/// Measurement array index for the third electrode.
pub const AF8: usize = 2;

/// Measurement array index for the fourth electrode.
pub const TP10: usize = 3;

/// The different display modes supported for live screen updates.
#[derive(Clone, Debug)]
pub enum DisplayType {
    Mandala,
    Dowsiness,
    Emotion,
    EegValues,
}

/// One decoded message from the headset.  Each scalar is an encoded
/// single-precision value.
#[derive(Clone, Debug)]
pub enum MuseMessageType {
    Eeg { a: u32, b: u32, c: u32, d: u32 },
    Accelerometer { x: u32, y: u32, z: u32 },
    Gyro { x: u32, y: u32, z: u32 },
    Alpha { a: u32, b: u32, c: u32, d: u32 },
    Beta { a: u32, b: u32, c: u32, d: u32 },
    Gamma { a: u32, b: u32, c: u32, d: u32 },
    Delta { a: u32, b: u32, c: u32, d: u32 },
    Theta { a: u32, b: u32, c: u32, d: u32 },
    Batt { batt: i32 },
    Horseshoe { a: u32, b: u32, c: u32, d: u32 },
    TouchingForehead { touch: bool },
    Blink { blink: bool },
    JawClench { clench: bool },
}

/// Snapshot of the most recently collected values from the headset.
pub struct MuseModel {
    pub accelerometer: [u32; 3],
    pub gyro: [u32; 3],
    pub alpha: [u32; 4],
    pub beta: [u32; 4],
    pub gamma: [u32; 4],
    pub delta: [u32; 4],
    pub theta: [u32; 4],
    pub batt: i32,
    pub horseshoe: [u32; 4],
    pub blink_countdown: i32,
    pub touching_forehead_countdown: i32,
    pub jaw_clench_countdown: i32,
    pub scale: u32,
    pub display_type: DisplayType,
    pub arousal: NormalizedValue,
    pub valence: NormalizedValue,
}

/// Whether a message carries a band-power update, after which the derived
/// signals are recomputed.
pub open spec fn numeric_update(msg: MuseMessageType) -> bool {
    match msg {
        MuseMessageType::Alpha { .. } => true,
        MuseMessageType::Beta { .. } => true,
        MuseMessageType::Gamma { .. } => true,
        MuseMessageType::Delta { .. } => true,
        MuseMessageType::Theta { .. } => true,
        _ => false,
    }
}

/// What one message does to the model: the named field takes the carried
/// values and everything else stays as it was.  A raw sample changes
/// nothing here; it is only logged by the surrounding layer.  A forehead
/// report arms its countdown when contact is lost, a blink or clench
/// report when the artifact is seen.
pub open spec fn handle_effect(m0: MuseModel, m1: MuseModel, msg: MuseMessageType) -> bool {
    match msg {
        MuseMessageType::Eeg { .. } => m1 == m0,
        MuseMessageType::Accelerometer { x, y, z } => {
            &&& m1.accelerometer@ =~= seq![x, y, z]
            &&& m1 == (MuseModel { accelerometer: m1.accelerometer, ..m0 })
        },
        MuseMessageType::Gyro { x, y, z } => {
            &&& m1.gyro@ =~= seq![x, y, z]
            &&& m1 == (MuseModel { gyro: m1.gyro, ..m0 })
        },
        MuseMessageType::Alpha { a, b, c, d } => {
            &&& m1.alpha@ =~= seq![a, b, c, d]
            &&& m1 == (MuseModel { alpha: m1.alpha, ..m0 })
        },
        MuseMessageType::Beta { a, b, c, d } => {
            &&& m1.beta@ =~= seq![a, b, c, d]
            &&& m1 == (MuseModel { beta: m1.beta, ..m0 })
        },
        MuseMessageType::Gamma { a, b, c, d } => {
            &&& m1.gamma@ =~= seq![a, b, c, d]
            &&& m1 == (MuseModel { gamma: m1.gamma, ..m0 })
        },
        MuseMessageType::Delta { a, b, c, d } => {
            &&& m1.delta@ =~= seq![a, b, c, d]
            &&& m1 == (MuseModel { delta: m1.delta, ..m0 })
        },
        MuseMessageType::Theta { a, b, c, d } => {
            &&& m1.theta@ =~= seq![a, b, c, d]
            &&& m1 == (MuseModel { theta: m1.theta, ..m0 })
        },
        MuseMessageType::Batt { batt } => {
            &&& m1.batt == batt
            &&& m1 == (MuseModel { batt: m1.batt, ..m0 })
        },
        MuseMessageType::Horseshoe { a, b, c, d } => {
            &&& m1.horseshoe@ =~= seq![a, b, c, d]
            &&& m1 == (MuseModel { horseshoe: m1.horseshoe, ..m0 })
        },
        MuseMessageType::TouchingForehead { touch } => {
            &&& m1.touching_forehead_countdown == (if touch {
                m0.touching_forehead_countdown
            } else {
                FOREHEAD_COUNTDOWN
            })
            &&& m1 == (MuseModel { touching_forehead_countdown: m1.touching_forehead_countdown, ..m0 })
        },
        MuseMessageType::Blink { blink } => {
            &&& m1.blink_countdown == (if blink {
                BLINK_COUNTDOWN
            } else {
                m0.blink_countdown
            })
            &&& m1 == (MuseModel { blink_countdown: m1.blink_countdown, ..m0 })
        },
        MuseMessageType::JawClench { clench } => {
            &&& m1.jaw_clench_countdown == (if clench {
                CLENCH_COUNTDOWN
            } else {
                m0.jaw_clench_countdown
            })
            &&& m1 == (MuseModel { jaw_clench_countdown: m1.jaw_clench_countdown, ..m0 })
        },
    }
}

/// The average of the two front-electrode values of a band.
pub open spec fn front_average_bits(x: Seq<u32>) -> u32 {
    div_bits32(add_bits32(x[AF7 as int], x[AF8 as int]), of_count_bits32(2))
}

/// The exponent of the frontal-asymmetry factor: the difference between
/// the two front-electrode alpha powers.
pub open spec fn valence_exponent_bits(m: MuseModel) -> u32 {
    sub_bits32(m.alpha@[AF7 as int], m.alpha@[AF8 as int])
}

/// The absolute valence: the frontal-asymmetry factor over the average
/// front-electrode theta power.
pub open spec fn absolute_valence_bits(m: MuseModel, front_assymetry: u32) -> u32 {
    div_bits32(front_assymetry, front_average_bits(m.theta@))
}

/// The exponent of the absolute arousal: the average posterior alpha power
/// less the average of the first- and second-electrode theta powers.
pub open spec fn arousal_exponent_bits(m: MuseModel) -> u32 {
    sub_bits32(
        div_bits32(add_bits32(m.alpha@[TP9 as int], m.alpha@[TP10 as int]), of_count_bits32(2)),
        div_bits32(add_bits32(m.theta@[TP9 as int], m.theta@[AF7 as int]), of_count_bits32(2)),
    )
}

/// Both statistics are in a state their own invariant allows.
pub open spec fn model_wf(m: MuseModel) -> bool {
    &&& wf(m.valence@)
    &&& wf(m.arousal@)
}

/// The average of the two front-electrode values of a band.
pub fn average_from_front_electrodes(x: &[u32; 4]) -> (r: u32)
    ensures
        r == front_average_bits(x@),
{
    div_32(add_32(x[1], x[2]), of_count_32(2))
}

impl MuseModel {
    /// A model with every reading zero, the default display mode and scale,
    /// and fresh statistics for the two derived signals.
    pub fn new() -> (r: MuseModel)
        ensures
            r.accelerometer@ =~= seq![0u32, 0u32, 0u32],
            r.gyro@ =~= seq![0u32, 0u32, 0u32],
            r.alpha@ =~= seq![0u32, 0u32, 0u32, 0u32],
            r.beta@ =~= seq![0u32, 0u32, 0u32, 0u32],
            r.gamma@ =~= seq![0u32, 0u32, 0u32, 0u32],
            r.delta@ =~= seq![0u32, 0u32, 0u32, 0u32],
            r.theta@ =~= seq![0u32, 0u32, 0u32, 0u32],
            r.batt == 0,
            r.horseshoe@ =~= seq![0u32, 0u32, 0u32, 0u32],
            r.blink_countdown == 0,
            r.touching_forehead_countdown == 0,
            r.jaw_clench_countdown == 0,
            r.display_type is Mandala,
            r.arousal@ == empty_model(HISTORY_LENGTH as nat, WINDOW_LENGTH as nat),
            r.valence@ == empty_model(HISTORY_LENGTH as nat, WINDOW_LENGTH as nat),
            model_wf(r),
    {
        MuseModel {
            accelerometer: [0, 0, 0],
            gyro: [0, 0, 0],
            alpha: [0, 0, 0, 0],
            beta: [0, 0, 0, 0],
            gamma: [0, 0, 0, 0],
            delta: [0, 0, 0, 0],
            theta: [0, 0, 0, 0],
            batt: 0,
            horseshoe: [0, 0, 0, 0],
            blink_countdown: 0,
            touching_forehead_countdown: 0,
            jaw_clench_countdown: 0,
            scale: 0x3fc0_0000,  // the encoding of one and a half
            display_type: DisplayType::Mandala,
            arousal: NormalizedValue::new(),
            valence: NormalizedValue::new(),
        }
    }

    /// The user has recently clamped their teeth, interrupting the signal.
    pub fn is_jaw_clench(&self) -> (r: bool)
        ensures
            r == (self.jaw_clench_countdown > 0),
    {
        self.jaw_clench_countdown > 0
    }

    /// The user has recently blinked, interrupting the signal.
    pub fn is_blink(&self) -> (r: bool)
        ensures
            r == (self.blink_countdown > 0),
    {
        self.blink_countdown > 0
    }

    /// The headband has recently lost its seat on the user's forehead.
    pub fn is_touching_forehead(&self) -> (r: bool)
        ensures
            r == (self.touching_forehead_countdown > 0),
    {
        self.touching_forehead_countdown > 0
    }

    /// One tick: each armed countdown moves one step toward zero and
    /// nothing else changes.
    pub fn count_down(&mut self)
        ensures
            final(self).blink_countdown == (if old(self).blink_countdown > 0 {
                old(self).blink_countdown - 1
            } else {
                old(self).blink_countdown as int
            }),
            final(self).jaw_clench_countdown == (if old(self).jaw_clench_countdown > 0 {
                old(self).jaw_clench_countdown - 1
            } else {
                old(self).jaw_clench_countdown as int
            }),
            final(self).touching_forehead_countdown == (if old(self).touching_forehead_countdown
                > 0 {
                old(self).touching_forehead_countdown - 1
            } else {
                old(self).touching_forehead_countdown as int
            }),
            *final(self) == (MuseModel {
                blink_countdown: final(self).blink_countdown,
                jaw_clench_countdown: final(self).jaw_clench_countdown,
                touching_forehead_countdown: final(self).touching_forehead_countdown,
                ..*old(self)
            }),
    {
        if self.blink_countdown > 0 {
            self.blink_countdown = self.blink_countdown - 1;
        }
        if self.jaw_clench_countdown > 0 {
            self.jaw_clench_countdown = self.jaw_clench_countdown - 1;
        }
        if self.touching_forehead_countdown > 0 {
            self.touching_forehead_countdown = self.touching_forehead_countdown - 1;
        }
    }

    /// Update state from one incoming message, and say whether it was a
    /// band-power update.  Logging and forwarding of raw samples is the
    /// surrounding layer's business; the state change here is everything
    /// the message decides.
    pub fn handle_muse_message(&mut self, muse_message: &MuseMessageType) -> (updated: bool)
        ensures
            updated == numeric_update(*muse_message),
            handle_effect(*old(self), *final(self), *muse_message),
    {
        match *muse_message {
            MuseMessageType::Accelerometer { x, y, z } => {
                self.accelerometer = [x, y, z];
                false
            },
            MuseMessageType::Gyro { x, y, z } => {
                self.gyro = [x, y, z];
                false
            },
            MuseMessageType::Horseshoe { a, b, c, d } => {
                self.horseshoe = [a, b, c, d];
                false
            },
            MuseMessageType::Eeg { .. } => false,
            MuseMessageType::Alpha { a, b, c, d } => {
                self.alpha = [a, b, c, d];
                true
            },
            MuseMessageType::Beta { a, b, c, d } => {
                self.beta = [a, b, c, d];
                true
            },
            MuseMessageType::Gamma { a, b, c, d } => {
                self.gamma = [a, b, c, d];
                true
            },
            MuseMessageType::Delta { a, b, c, d } => {
                self.delta = [a, b, c, d];
                true
            },
            MuseMessageType::Theta { a, b, c, d } => {
                self.theta = [a, b, c, d];
                true
            },
            MuseMessageType::Batt { batt } => {
                self.batt = batt;
                false
            },
            MuseMessageType::TouchingForehead { touch } => {
                if !touch {
                    self.touching_forehead_countdown = FOREHEAD_COUNTDOWN;
                }
                false
            },
            MuseMessageType::Blink { blink } => {
                if blink {
                    self.blink_countdown = BLINK_COUNTDOWN;
                }
                false
            },
            MuseMessageType::JawClench { clench } => {
                if clench {
                    self.jaw_clench_countdown = CLENCH_COUNTDOWN;
                }
                false
            },
        }
    }

    /// The exponent of the frontal-asymmetry factor.  The caller raises e
    /// to this value and passes the result to the valence update.
    pub fn valence_exponent(&self) -> (r: u32)
        ensures
            r == valence_exponent_bits(*self),
    {
        sub_32(self.alpha[1], self.alpha[2])
    }

    /// The exponent of the absolute arousal.  The caller raises e to this
    /// value and passes the result to the arousal update.
    pub fn arousal_exponent(&self) -> (r: u32)
        ensures
            r == arousal_exponent_bits(*self),
    {
        let posterior_alpha = div_32(add_32(self.alpha[0], self.alpha[3]), of_count_32(2));
        let posterior_theta = div_32(add_32(self.theta[0], self.theta[1]), of_count_32(2));
        sub_32(posterior_alpha, posterior_theta)
    }

    /// Positive-negative balance of emotion: the frontal-asymmetry factor
    /// over the average front-electrode theta power.
    pub fn calc_absolute_valence(&self, front_assymetry: u32) -> (r: u32)
        ensures
            r == absolute_valence_bits(*self, front_assymetry),
    {
        div_32(front_assymetry, average_from_front_electrodes(&self.theta))
    }

    /// Feed the current absolute valence into its statistic.
    pub fn update_valence(&mut self, front_assymetry: u32) -> (accepted: bool)
        requires
            wf(old(self).valence@),
        ensures
            accepted == accepts(old(self).valence@, absolute_valence_bits(*old(self), front_assymetry)),
            final(self).valence@ == spec_observe(
                old(self).valence@,
                absolute_valence_bits(*old(self), front_assymetry),
            ),
            wf(final(self).valence@),
            *final(self) == (MuseModel { valence: final(self).valence, ..*old(self) }),
    {
        let abs_valence = self.calc_absolute_valence(front_assymetry);
        self.valence.set(abs_valence)
    }

    /// Feed the current absolute arousal into its statistic.
    pub fn update_arousal(&mut self, absolute_arousal: u32) -> (accepted: bool)
        requires
            wf(old(self).arousal@),
        ensures
            accepted == accepts(old(self).arousal@, absolute_arousal),
            final(self).arousal@ == spec_observe(old(self).arousal@, absolute_arousal),
            wf(final(self).arousal@),
            *final(self) == (MuseModel { arousal: final(self).arousal, ..*old(self) }),
    {
        self.arousal.set(absolute_arousal)
    }

    /// One sample after a batch of band updates: feed both derived signals
    /// into their statistics, then return the pair of smoothed, normalized
    /// signals -- nothing while a statistic is still calibrating.
    pub fn sample(&mut self, front_assymetry: u32, absolute_arousal: u32) -> (r: (
        Option<u32>,
        Option<u32>,
    ))
        requires
            model_wf(*old(self)),
        ensures
            model_wf(*final(self)),
            final(self).valence@ == spec_observe(
                old(self).valence@,
                absolute_valence_bits(*old(self), front_assymetry),
            ),
            final(self).arousal@ == spec_observe(old(self).arousal@, absolute_arousal),
            r.0 == normalize_bits(
                final(self).valence@,
                mean_bits(final(self).valence@.moving_average_history),
            ),
            r.1 == normalize_bits(
                final(self).arousal@,
                mean_bits(final(self).arousal@.moving_average_history),
            ),
            *final(self) == (MuseModel {
                valence: final(self).valence,
                arousal: final(self).arousal,
                ..*old(self)
            }),
    {
        let _valence_updated = self.update_valence(front_assymetry);
        let _arousal_updated = self.update_arousal(absolute_arousal);
        let vma = self.valence.moving_average();
        let ama = self.arousal.moving_average();
        let normalized_valence_option = self.valence.normalize(vma);
        let normalized_arousal_option = self.arousal.normalize(ama);
        (normalized_valence_option, normalized_arousal_option)
    }
}

} // verus!
