//! The signal core of a biofeedback installation: streaming statistics
//! with bounded history and z-score normalization, and the model that
//! turns per-channel EEG band powers into calibrated valence and arousal
//! signals.  Scalar samples are carried as IEEE 754 bit patterns, their
//! arithmetic done by trusted software-float primitives, and everything
//! decided around that arithmetic is verified.

use vstd::prelude::*;

pub mod ieee32;
pub mod ieee64;
pub mod muse_model;
pub mod rig;
pub mod stats32;
pub mod stats64;
pub mod view;

verus! {

/// Number of samples in the normalization (calibration) window.
pub const HISTORY_LENGTH: usize = 120;

/// The current value is smoothed by the most recent values in this window.
pub const WINDOW_LENGTH: usize = 10;

/// Window sizes for one streaming statistic.
pub struct StatConfig {
    pub history_window: usize,
    pub moving_average_window: usize,
}

impl Default for StatConfig {
    /// The window sizes used by the installation.
    fn default() -> (r: Self)
        ensures
            r.history_window == HISTORY_LENGTH,
            r.moving_average_window == WINDOW_LENGTH,
    {
        StatConfig { history_window: HISTORY_LENGTH, moving_average_window: WINDOW_LENGTH }
    }
}

/// Receive packets of EEG data over a local network socket.
pub trait OscSocket: Sized {
    fn osc_socket_receive();
}

} // verus!
