//! Streaming statistics for a sampled analog voltage: a fixed-capacity ring of
//! samples with a running mean, lifetime extrema and a peak detector that
//! estimates the wave's frequency and wavelength one sample at a time.
//!
//! Samples are fixed-point levels (`FULL_SCALE` stands for the top of the
//! input range), times are nanoseconds on a monotonic clock, voltages are
//! microvolts and frequencies millihertz.

mod history;
pub mod laws;
pub mod model;
mod ticker;
pub mod units;

pub use history::ReadHistory;
pub use model::{Stats, HISTORY_SIZE, MAX_CAPACITY, TOLERANCE_PERCENT};
pub use ticker::Ticker;
pub use units::{lerp, FULL_SCALE, MAX_MICROVOLT, MILLIHERTZ_NANOS};
