use vstd::prelude::*;

use crate::model::{
    frequency_of, is_outside_peak, lemma_sum_bounds, lemma_sum_update, seq_sum, HistoryModel,
    Stats, HISTORY_SIZE, MAX_CAPACITY, TOLERANCE_PERCENT,
};
use crate::units::{FULL_SCALE, MAX_MICROVOLT, MILLIHERTZ_NANOS};

verus! {

/// A fixed-capacity ring of samples with a running mean, lifetime extrema
/// and a peak detector that measures the wave's period.
///
/// The running mean is kept as the sum of the ring, adjusted by the sample
/// that leaves and the one that arrives, so each sample costs O(1) work.
pub struct ReadHistory {
    head: usize,
    data: Vec<u32>,
    total: u64,
    max: u32,
    min: u32,
    peaked_at: Option<u64>,
    frequency: u64,
    wavelength: Option<u64>,
}

impl View for ReadHistory {
    type V = HistoryModel;

    closed spec fn view(&self) -> HistoryModel {
        HistoryModel {
            samples: self.data@,
            head: self.head as int,
            max: self.max,
            min: self.min,
            peaked_at: self.peaked_at,
            wavelength: self.wavelength,
            frequency: self.frequency,
        }
    }
}

impl ReadHistory {
    /// The tracker is well formed and its running sum is the sum of its ring.
    pub closed spec fn inv(&self) -> bool {
        &&& self@.wf()
        &&& self.total == seq_sum(self.data@)
    }

    /// A tracker of `HISTORY_SIZE` samples, all `default_value`.
    pub fn new(default_value: u32) -> (r: Self)
        ensures
            r.inv(),
            r@ == HistoryModel::fresh(default_value, HISTORY_SIZE as nat),
    {
        Self::with_capacity(default_value, HISTORY_SIZE)
    }

    /// A tracker of `capacity` samples, all `default_value`.
    pub fn with_capacity(default_value: u32, capacity: usize) -> (r: Self)
        requires
            0 < capacity <= MAX_CAPACITY,
        ensures
            r.inv(),
            r@ == HistoryModel::fresh(default_value, capacity as nat),
    {
        let mut data: Vec<u32> = Vec::new();
        let mut total: u64 = 0;
        let mut i: usize = 0;
        while i < capacity
            invariant
                i <= capacity <= MAX_CAPACITY,
                data@ =~= Seq::new(i as nat, |_j: int| default_value),
                total == seq_sum(data@),
                total == i * default_value,
            decreases capacity - i,
        {
            proof {
                assert(data@.push(default_value).drop_last() == data@);
                assert((i + 1) * default_value <= MAX_CAPACITY * u32::MAX) by (nonlinear_arith)
                    requires i + 1 <= MAX_CAPACITY, default_value <= u32::MAX;
                assert((i + 1) * default_value == i * default_value + default_value)
                    by (nonlinear_arith);
            }
            data.push(default_value);
            total = total + default_value as u64;
            i = i + 1;
        }
        let r = ReadHistory {
            head: 0,
            data,
            total,
            max: default_value,
            min: default_value,
            peaked_at: None,
            frequency: 0,
            wavelength: None,
        };
        assert(r@.samples =~= HistoryModel::fresh(default_value, capacity as nat).samples);
        r
    }

    /// Takes in sample `n`, read at time `now` (nanoseconds on a monotonic
    /// clock): it replaces the oldest sample, the mean and the extrema follow,
    /// and the peak detector moves on.
    pub fn push(&mut self, n: u32, now: u64)
        requires
            old(self).inv(),
        ensures
            final(self).inv(),
            final(self)@ == old(self)@.step(n, now),
            final(self)@.max >= old(self)@.max,
            final(self)@.min <= old(self)@.min,
    {
        let ghost s0 = self.data@;
        let len = self.data.len();
        let h = self.head;
        let gone = self.data[h];
        self.data.set(h, n);
        proof {
            lemma_sum_update(s0, h as int, n);
            lemma_sum_update(s0, h as int, 0);
            lemma_sum_bounds(s0.update(h as int, 0));
            lemma_sum_bounds(self.data@);
            assert(len * (u32::MAX as int) <= MAX_CAPACITY * u32::MAX) by (nonlinear_arith)
                requires len <= MAX_CAPACITY;
        }
        self.total = self.total - gone as u64 + n as u64;
        self.head = if h + 1 < len { h + 1 } else { 0 };

        if n > self.max {
            self.max = n;
        }
        if n < self.min {
            self.min = n;
        }
        let below = (self.max - n) as u64 * 200;
        let band = (self.max - self.min) as u64 * TOLERANCE_PERCENT;
        if below > band {
            if self.peaked_at.is_none() {
                self.peaked_at = Some(now);
            }
        } else {
            match self.peaked_at {
                Some(t) => {
                    if now > t {
                        let w = now - t;
                        self.wavelength = Some(w);
                        self.frequency = MILLIHERTZ_NANOS / w;
                    }
                    self.peaked_at = None;
                },
                None => {},
            }
        }
        assert(self@ == old(self)@.step(n, now));
    }

    /// Half the distance between the extrema, in microvolts, rounded down.
    pub fn amplitude(&self) -> (r: u64)
        requires
            self.inv(),
        ensures
            r == self@.amplitude(),
    {
        proof {
            assert((self.max - self.min) * MAX_MICROVOLT <= u32::MAX * MAX_MICROVOLT)
                by (nonlinear_arith)
                requires self.max - self.min <= u32::MAX;
        }
        (self.max - self.min) as u64 * MAX_MICROVOLT / (2 * FULL_SCALE as u64)
    }

    /// The last measured frequency, in millihertz, or 0 before the first.
    pub fn frequency(&self) -> (r: u64)
        ensures
            r == self@.frequency,
    {
        self.frequency
    }

    /// The last measured wavelength, in nanoseconds, or 0 before the first.
    pub fn wavelength(&self) -> (r: u64)
        ensures
            r == self@.wavelength_or_zero(),
    {
        match self.wavelength {
            Some(w) => w,
            None => 0,
        }
    }

    /// The amplitude, frequency and wavelength together. Reading them changes
    /// nothing, so two reads with no push between them agree.
    pub fn snapshot(&self) -> (r: Stats)
        requires
            self.inv(),
        ensures
            r == self@.stats(),
            r.amplitude == self@.amplitude(),
    {
        Stats {
            amplitude: self.amplitude(),
            frequency: self.frequency(),
            wavelength: self.wavelength(),
        }
    }

    /// The mean of the samples held, rounded down.
    pub fn average(&self) -> (r: u32)
        requires
            self.inv(),
        ensures
            r == self@.mean(),
    {
        proof {
            lemma_sum_bounds(self.data@);
            let len = self.data@.len() as int;
            assert(seq_sum(self.data@) / len <= u32::MAX) by (nonlinear_arith)
                requires 0 <= seq_sum(self.data@) <= len * (u32::MAX as int), len > 0;
        }
        (self.total / self.data.len() as u64) as u32
    }

    /// The largest sample ever taken in, the default value included.
    pub fn max(&self) -> (r: u32)
        ensures
            r == self@.max,
    {
        self.max
    }

    /// The smallest sample ever taken in, the default value included.
    pub fn min(&self) -> (r: u32)
        ensures
            r == self@.min,
    {
        self.min
    }

    /// The number of samples held.
    pub fn capacity(&self) -> (r: usize)
        ensures
            r == self@.capacity(),
    {
        self.data.len()
    }

    /// When the signal last left a peak, if a cycle is under way.
    pub fn peaked_at(&self) -> (r: Option<u64>)
        ensures
            r == self@.peaked_at,
    {
        self.peaked_at
    }

    /// The samples held, from the oldest to the newest.
    pub fn history(&self) -> (r: Vec<u32>)
        requires
            self.inv(),
        ensures
            r@ == self@.ring(),
    {
        let len = self.data.len();
        let mut r: Vec<u32> = Vec::new();
        let mut k: usize = 0;
        while k < len
            invariant
                len == self.data@.len(),
                self.head < len,
                k <= len,
                r@ =~= self@.ring().subrange(0, k as int),
            decreases len - k,
        {
            let i = if k < len - self.head { self.head + k } else { k - (len - self.head) };
            r.push(self.data[i]);
            k = k + 1;
        }
        assert(r@ =~= self@.ring());
        r
    }
}

} // verus!
