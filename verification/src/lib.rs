//! Exponentially weighted moving averages over sequences with gaps.

pub mod average;
pub mod presence;
pub mod regime;
pub mod scalar;
pub mod state;

pub use average::{ewm_mean, ewm_mean_alpha_equals_one, ewm_mean_decided, ewm_mean_recurrence};
pub use regime::{select_regime, EwmError, Regime};
pub use state::EwmState;
