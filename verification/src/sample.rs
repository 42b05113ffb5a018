//! Fixed-point sample arithmetic.
//!
//! Samples travel through the engine as `i32` fixed-point values with a
//! nominal full scale of `-32768..=32767`; the extra width is headroom for
//! mixing several chips. Gain is a fixed-point rate in units of
//! 1/65536, so a rate of [`LEVEL_RATE_ONE`] leaves a sample unchanged.

use vstd::prelude::*;

verus! {

/// The gain rate that means "unchanged" (1.0 in fixed point).
pub const LEVEL_RATE_ONE: u32 = 65536;

/// The gain rate that means "half magnitude" (0.5 in fixed point).
pub const LEVEL_RATE_HALF: u32 = 32768;

/// `v` clamped into `lo..=hi`.
pub open spec fn spec_clamp(v: int, lo: int, hi: int) -> int {
    if v < lo {
        lo
    } else if v > hi {
        hi
    } else {
        v
    }
}

/// `v * num / den`, with the division truncating toward zero, as hardware
/// gain stages do on magnitudes.
pub open spec fn spec_scale_trunc(v: int, num: int, den: int) -> int
    recommends
        den > 0,
{
    if v >= 0 {
        (v * num) / den
    } else {
        -(((-v) * num) / den)
    }
}

/// A sample with a gain rate applied: scale by `level / 65536` truncating
/// toward zero, then saturate to the `i32` range.
pub open spec fn spec_apply_level(sample: int, level: int) -> int {
    spec_clamp(
        spec_scale_trunc(sample, level, LEVEL_RATE_ONE as int),
        i32::MIN as int,
        i32::MAX as int,
    )
}

/// Apply a fixed-point gain rate to one sample.
pub fn apply_level(sample: i32, level: u32) -> (r: i32)
    ensures
        r as int == spec_apply_level(sample as int, level as int),
{
    let mag: u64 = if sample >= 0 {
        sample as u64
    } else {
        (-(sample as i64)) as u64
    };
    assert(mag * level <= 0x8000_0000u64 * 0xFFFF_FFFFu64) by (nonlinear_arith)
        requires
            mag <= 0x8000_0000u64,
            level <= 0xFFFF_FFFFu32,
    ;
    let scaled: u64 = mag * (level as u64) / 65536;
    if sample >= 0 {
        if scaled > i32::MAX as u64 {
            i32::MAX
        } else {
            scaled as i32
        }
    } else {
        if scaled > 0x8000_0000u64 {
            i32::MIN
        } else {
            (-(scaled as i64)) as i32
        }
    }
}

/// Sum two samples, saturating at the `i32` range.
pub fn mix(a: i32, b: i32) -> (r: i32)
    ensures
        r as int == spec_clamp(a as int + b as int, i32::MIN as int, i32::MAX as int),
{
    let wide: i64 = a as i64 + b as i64;
    if wide < i32::MIN as i64 {
        i32::MIN
    } else if wide > i32::MAX as i64 {
        i32::MAX
    } else {
        wide as i32
    }
}

/// Narrow a fixed-point sample to signed 16-bit PCM, saturating on
/// overflow.
pub fn convert_sample_to_s16(sample: i32) -> (r: i16)
    ensures
        r as int == spec_clamp(sample as int, i16::MIN as int, i16::MAX as int),
{
    if sample < i16::MIN as i32 {
        i16::MIN
    } else if sample > i16::MAX as i32 {
        i16::MAX
    } else {
        sample as i16
    }
}

/// A gain rate of [`LEVEL_RATE_ONE`] leaves every representable sample
/// unchanged.
pub proof fn lemma_apply_level_unit(sample: int)
    requires
        i32::MIN <= sample <= i32::MAX,
    ensures
        spec_apply_level(sample, LEVEL_RATE_ONE as int) == sample,
{
    if sample >= 0 {
        assert(sample * 65536 / 65536 == sample) by (nonlinear_arith);
    } else {
        assert((-sample) * 65536 / 65536 == -sample) by (nonlinear_arith);
    }
}

/// A gain rate of [`LEVEL_RATE_HALF`] halves a sample's magnitude: it
/// yields exactly the unit-rate result scaled by one half, truncating
/// toward zero.
pub proof fn lemma_apply_level_half(sample: int)
    requires
        i32::MIN <= sample <= i32::MAX,
    ensures
        spec_apply_level(sample, LEVEL_RATE_HALF as int) == spec_scale_trunc(
            spec_apply_level(sample, LEVEL_RATE_ONE as int),
            1,
            2,
        ),
{
    lemma_apply_level_unit(sample);
    let m = if sample >= 0 { sample } else { -sample };
    assert(m * 32768 / 65536 == m / 2 && m * 1 / 2 == m / 2) by (nonlinear_arith)
        requires
            0 <= m,
    ;
}

} // verus!
