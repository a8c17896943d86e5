//! Crate-wide limits on frame and packet duration.

use vstd::prelude::*;
use crate::types::SampleRate;

verus! {

/// Maximum samples per channel in a single frame at 48 kHz: 120 ms.
pub const MAX_FRAME_SAMPLES_48KHZ: usize = 5760;

/// Maximum packet duration in milliseconds.
pub const MAX_PACKET_DURATION_MS: usize = 120;

/// The maximum samples per channel for a frame at `sample_rate`: 120 ms worth of samples.
pub open spec fn max_frame_samples(sample_rate: SampleRate) -> int {
    5760 * sample_rate.hertz() / 48000
}

/// Compute the maximum samples per channel for a frame at the given `sample_rate`.
pub fn max_frame_samples_for(sample_rate: SampleRate) -> (n: usize)
    ensures
        n == max_frame_samples(sample_rate),
        n * 25 == sample_rate.hertz() * 3,
        0 < n <= 5760,
{
    let hz: usize = sample_rate.as_i32() as usize;
    (MAX_FRAME_SAMPLES_48KHZ * hz) / 48_000
}

} // verus!
