use vstd::prelude::*;

use crate::units::{FULL_SCALE, MAX_MICROVOLT, MILLIHERTZ_NANOS};

verus! {

/// The number of samples a tracker made by `ReadHistory::new` keeps.
pub const HISTORY_SIZE: usize = 1_000;

/// The largest capacity a tracker can have: the sum of its samples must fit
/// in a `u64`.
pub const MAX_CAPACITY: usize = 4_294_967_295;

/// Width of the tolerance band below the maximum, in percent of half the
/// distance between the extrema.
pub const TOLERANCE_PERCENT: u64 = 5;

/// The current statistics of a tracker.
#[derive(PartialEq, Eq, Structural, Clone, Copy, Debug)]
pub struct Stats {
    /// Half the distance between the extrema, in microvolts.
    pub amplitude: u64,
    /// The last measured frequency in millihertz, or 0 before the first.
    pub frequency: u64,
    /// The last measured wavelength in nanoseconds, or 0 before the first.
    pub wavelength: u64,
}

/// The sum of a sequence of levels.
pub open spec fn seq_sum(s: Seq<u32>) -> int
    decreases s.len(),
{
    if s.len() == 0 {
        0
    } else {
        seq_sum(s.drop_last()) + s.last()
    }
}

/// Whether a sample lies below the tolerance band under `max`: more than
/// `TOLERANCE_PERCENT` percent of `(max - min) / 2` under it.
pub open spec fn is_outside_peak(max: u32, min: u32, n: u32) -> bool {
    (max - n) * 200 > (max - min) * TOLERANCE_PERCENT
}

/// The frequency, in millihertz, of a wave whose wavelength is `w`
/// nanoseconds.
pub open spec fn frequency_of(w: u64) -> u64 {
    (MILLIHERTZ_NANOS / w) as u64
}

/// The state of a tracker.
pub struct HistoryModel {
    /// The ring of samples; its length is the capacity.
    pub samples: Seq<u32>,
    /// The index the next sample is written to, the oldest sample's.
    pub head: int,
    /// The largest sample ever held.
    pub max: u32,
    /// The smallest sample ever held.
    pub min: u32,
    /// When the signal last left a peak, while a cycle is under way.
    pub peaked_at: Option<u64>,
    /// The last measured wavelength, in nanoseconds.
    pub wavelength: Option<u64>,
    /// The last measured frequency, in millihertz.
    pub frequency: u64,
}

impl HistoryModel {
    /// A tracker of `capacity` samples, all `default_value`, with no cycle
    /// seen.
    pub open spec fn fresh(default_value: u32, capacity: nat) -> HistoryModel {
        HistoryModel {
            samples: Seq::new(capacity, |_i: int| default_value),
            head: 0,
            max: default_value,
            min: default_value,
            peaked_at: None,
            wavelength: None,
            frequency: 0,
        }
    }

    pub open spec fn capacity(self) -> nat {
        self.samples.len()
    }

    /// What holds in every state: the ring has a capacity in range, the
    /// cursor lies in it, the extrema are ordered, and the frequency belongs to
    /// the wavelength.
    pub open spec fn wf(self) -> bool {
        &&& 0 < self.capacity() <= MAX_CAPACITY
        &&& 0 <= self.head < self.capacity()
        &&& self.min <= self.max
        &&& match self.wavelength {
            Some(w) => w > 0 && self.frequency == frequency_of(w),
            None => self.frequency == 0,
        }
    }

    /// The samples from the oldest to the newest.
    pub open spec fn ring(self) -> Seq<u32> {
        self.samples.subrange(self.head, self.capacity() as int) + self.samples.subrange(0, self.head)
    }

    /// The mean of the samples held, rounded down.
    pub open spec fn mean(self) -> int {
        seq_sum(self.samples) / (self.capacity() as int)
    }

    /// Half the distance between the extrema, in microvolts, rounded down.
    pub open spec fn amplitude(self) -> int {
        (self.max - self.min) * MAX_MICROVOLT / (2 * FULL_SCALE as int)
    }

    pub open spec fn wavelength_or_zero(self) -> u64 {
        match self.wavelength {
            Some(w) => w,
            None => 0,
        }
    }

    pub open spec fn stats(self) -> Stats {
        Stats {
            amplitude: self.amplitude() as u64,
            frequency: self.frequency,
            wavelength: self.wavelength_or_zero(),
        }
    }

    /// The state after sample `n` arrives at time `now`.
    ///
    /// The sample replaces the oldest one and the extrema take it in. A sample
    /// below the tolerance band starts a cycle, unless one is under way. A
    /// sample inside the band ends a cycle under way: the time since it started
    /// becomes the wavelength, unless it is zero (or the clock went back), in
    /// which case the cycle is dropped and the last measurement stays.
    ///
    /// The wavelength is thus measured from the moment the signal leaves one
    /// peak to the moment it reaches the next: a full cycle, peak to peak,
    /// less the time the signal spends inside the band.
    pub open spec fn step(self, n: u32, now: u64) -> HistoryModel {
        let max = if n > self.max { n } else { self.max };
        let min = if n < self.min { n } else { self.min };
        let head = if self.head + 1 < self.capacity() { self.head + 1 } else { 0 };
        let samples = self.samples.update(self.head, n);
        if is_outside_peak(max, min, n) {
            HistoryModel {
                samples,
                head,
                max,
                min,
                peaked_at: if self.peaked_at is None { Some(now) } else { self.peaked_at },
                ..self
            }
        } else {
            match self.peaked_at {
                Some(t) if now > t => HistoryModel {
                    samples,
                    head,
                    max,
                    min,
                    peaked_at: None,
                    wavelength: Some((now - t) as u64),
                    frequency: frequency_of((now - t) as u64),
                },
                _ => HistoryModel { samples, head, max, min, peaked_at: None, ..self },
            }
        }
    }
}

/// The sum of the levels after one of them is replaced.
pub proof fn lemma_sum_update(s: Seq<u32>, i: int, v: u32)
    requires
        0 <= i < s.len(),
    ensures
        seq_sum(s.update(i, v)) == seq_sum(s) - s[i] + v,
    decreases s.len(),
{
    let u = s.update(i, v);
    if i == s.len() - 1 {
        assert(u.drop_last() =~= s.drop_last());
    } else {
        assert(u.drop_last() =~= s.drop_last().update(i, v));
        lemma_sum_update(s.drop_last(), i, v);
    }
}

/// The sum of `k` levels lies between 0 and `k * u32::MAX`.
pub proof fn lemma_sum_bounds(s: Seq<u32>)
    ensures
        0 <= seq_sum(s) <= s.len() * (u32::MAX as int),
    decreases s.len(),
{
    if s.len() > 0 {
        lemma_sum_bounds(s.drop_last());
    }
}

} // verus!
