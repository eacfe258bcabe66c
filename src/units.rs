use vstd::prelude::*;

verus! {

/// The level that stands for the top of the input range (1.0); a level of 0
/// stands for 0 V.
pub const FULL_SCALE: u32 = 1_000_000;

/// The voltage, in microvolts, that a level of `FULL_SCALE` stands for.
pub const MAX_MICROVOLT: u64 = 5_000_000;

/// Nanoseconds in one second, times one thousand: dividing it by a period in
/// nanoseconds gives a frequency in millihertz.
pub const MILLIHERTZ_NANOS: u64 = 1_000_000_000_000;

/// The point a fraction `t / FULL_SCALE` of the way from `start` to `end`,
/// rounded toward `start`.
pub open spec fn lerp_spec(start: u32, end: u32, t: u32) -> int {
    if start <= end {
        start + (end - start) * t / (FULL_SCALE as int)
    } else {
        start - (start - end) * t / (FULL_SCALE as int)
    }
}

proof fn lemma_scaled_span(span: int, t: int)
    requires
        0 <= span <= u32::MAX,
        0 <= t <= FULL_SCALE,
    ensures
        0 <= span * t <= u64::MAX,
        0 <= span * t / (FULL_SCALE as int) <= span,
{
    assert(0 <= span * t <= span * FULL_SCALE) by (nonlinear_arith)
        requires 0 <= t <= FULL_SCALE, 0 <= span;
    assert(span * FULL_SCALE <= u32::MAX * FULL_SCALE) by (nonlinear_arith)
        requires span <= u32::MAX;
    assert(span * t / (FULL_SCALE as int) <= span) by (nonlinear_arith)
        requires span * t <= span * FULL_SCALE, FULL_SCALE > 0;
    assert(span * t / (FULL_SCALE as int) >= 0) by (nonlinear_arith)
        requires span * t >= 0, FULL_SCALE > 0;
}

/// Linear interpolation between two levels; `t` is a fraction of
/// `FULL_SCALE`.
pub fn lerp(start: u32, end: u32, t: u32) -> (r: u32)
    requires
        t <= FULL_SCALE,
    ensures
        r == lerp_spec(start, end, t),
        start <= end ==> start <= r <= end,
        end < start ==> end <= r <= start,
{
    if start <= end {
        let span: u64 = (end - start) as u64;
        proof {
            lemma_scaled_span(span as int, t as int);
        }
        let step: u64 = span * (t as u64) / (FULL_SCALE as u64);
        start + step as u32
    } else {
        let span: u64 = (start - end) as u64;
        proof {
            lemma_scaled_span(span as int, t as int);
        }
        let step: u64 = span * (t as u64) / (FULL_SCALE as u64);
        start - step as u32
    }
}

} // verus!
