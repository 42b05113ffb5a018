//! Resampling strategies.
//!
//! A [`SoundStream`] reconciles a chip's native sample-production rate
//! with the engine's output rate. Before each output-domain sample the
//! hosting device asks [`SoundStream::is_tick`] how many chip ticks are
//! still owed, pushes one native sample per owed tick, and then drains
//! the resampled stereo pair. Every strategy keeps its fractional
//! position across cycles — the phase is never reset after construction,
//! which is what keeps long runs free of drift and clicks.
//!
//! All phase arithmetic is exact: a phase is a numerator below the output
//! rate, advanced by the native rate and reduced modulo the output rate.

use vstd::prelude::*;

use crate::sample::{spec_clamp, spec_scale_trunc};

verus! {

/// How many chip ticks are owed before the next output sample is ready.
#[derive(Clone, Copy, Debug, PartialEq, Eq, Structural)]
pub enum Tick {
    /// Exactly one tick is owed.
    One,
    /// More than one tick is owed.
    More,
    /// No tick is owed.
    No,
}

/// A resampling strategy with its accumulated state.
pub enum SoundStream {
    /// Native and output rate agree: one chip tick per output sample, no
    /// rate conversion.
    Native { sampling_rate: u32, latest_l: i32, latest_r: i32, filled: bool },
    /// Native rate above output rate: every native tick in the window is
    /// summed and the drain yields the truncated average, so energy
    /// across skipped samples still shapes the output (used for
    /// aliasing-prone square/pulse generators).
    OverSample {
        native_rate: u32,
        output_rate: u32,
        phase: u32,
        owed: u32,
        count: u32,
        sum_l: i128,
        sum_r: i128,
    },
    /// Native rate above output rate: intermediate native ticks are
    /// discarded and the most recent one is kept.
    NearestDown { native_rate: u32, output_rate: u32, phase: u32, owed: u32, latest_l: i32, latest_r: i32 },
    /// Native rate below output rate: output samples between two native
    /// samples are interpolated linearly.
    LinearUp {
        native_rate: u32,
        output_rate: u32,
        phase: u32,
        pending: bool,
        prev_l: i32,
        prev_r: i32,
        next_l: i32,
        next_r: i32,
    },
    /// Native rate below output rate: the last native sample is repeated
    /// until the next native tick arrives (zero-order hold, for chips
    /// whose native output is inherently stepped).
    SampleHold {
        native_rate: u32,
        output_rate: u32,
        phase: u32,
        pending: bool,
        prev_l: i32,
        prev_r: i32,
        next_l: i32,
        next_r: i32,
    },
}

/// Linear interpolation between `prev` and `next` at fraction
/// `phase / den`, truncating toward zero.
pub open spec fn spec_interp(prev: int, next: int, phase: int, den: int) -> int {
    prev + spec_scale_trunc(next - prev, phase, den)
}

/// Whether two strategy states are of the same kind and at the same
/// point of the same output cycle: pushing samples and retuning the
/// chip-side rate both preserve this; only a drain advances the phase.
pub open spec fn spec_same_kind_and_phase(a: SoundStream, b: SoundStream) -> bool {
    match (a, b) {
        (SoundStream::Native { .. }, SoundStream::Native { .. }) => true,
        (
            SoundStream::OverSample { output_rate: ao, phase: ap, .. },
            SoundStream::OverSample { output_rate: bo, phase: bp, .. },
        ) => ao == bo && ap == bp,
        (
            SoundStream::NearestDown { output_rate: ao, phase: ap, .. },
            SoundStream::NearestDown { output_rate: bo, phase: bp, .. },
        ) => ao == bo && ap == bp,
        (
            SoundStream::LinearUp { output_rate: ao, phase: ap, .. },
            SoundStream::LinearUp { output_rate: bo, phase: bp, .. },
        ) => ao == bo && ap == bp,
        (
            SoundStream::SampleHold { output_rate: ao, phase: ap, .. },
            SoundStream::SampleHold { output_rate: bo, phase: bp, .. },
        ) => ao == bo && ap == bp,
        _ => false,
    }
}

impl SoundStream {
    /// Structural soundness: rates fit the variant's direction, the phase
    /// is a proper numerator, and the oversampling window is bounded by
    /// the native rate.
    pub open spec fn wf(self) -> bool {
        match self {
            SoundStream::Native { sampling_rate, .. } => sampling_rate >= 1,
            SoundStream::OverSample { native_rate, output_rate, phase, owed, count, sum_l, sum_r } => {
                &&& output_rate >= 1
                &&& native_rate >= output_rate
                &&& phase < output_rate
                &&& owed + count <= native_rate
                &&& -(count as int) * 0x8000_0000 <= sum_l <= (count as int) * 0x8000_0000
                &&& -(count as int) * 0x8000_0000 <= sum_r <= (count as int) * 0x8000_0000
            },
            SoundStream::NearestDown { native_rate, output_rate, phase, owed, .. } => {
                &&& output_rate >= 1
                &&& native_rate >= output_rate
                &&& phase < output_rate
                &&& owed <= native_rate
            },
            SoundStream::LinearUp { native_rate, output_rate, phase, .. } => {
                &&& native_rate >= 1
                &&& output_rate > native_rate
                &&& phase < output_rate
            },
            SoundStream::SampleHold { native_rate, output_rate, phase, .. } => {
                &&& native_rate >= 1
                &&& output_rate > native_rate
                &&& phase < output_rate
            },
        }
    }

    /// The number of chip ticks owed before the next drain.
    pub open spec fn ticks_owed(self) -> nat {
        match self {
            SoundStream::Native { filled, .. } => if filled {
                0nat
            } else {
                1nat
            },
            SoundStream::OverSample { owed, .. } => owed as nat,
            SoundStream::NearestDown { owed, .. } => owed as nat,
            SoundStream::LinearUp { pending, .. } => if pending {
                1nat
            } else {
                0nat
            },
            SoundStream::SampleHold { pending, .. } => if pending {
                1nat
            } else {
                0nat
            },
        }
    }

    /// The chip-side (native) sample rate the strategy is tuned to.
    pub open spec fn spec_sampling_rate(self) -> u32 {
        match self {
            SoundStream::Native { sampling_rate, .. } => sampling_rate,
            SoundStream::OverSample { native_rate, .. } => native_rate,
            SoundStream::NearestDown { native_rate, .. } => native_rate,
            SoundStream::LinearUp { native_rate, .. } => native_rate,
            SoundStream::SampleHold { native_rate, .. } => native_rate,
        }
    }

    /// The stereo pair a drain would yield in the current state.
    pub open spec fn drained(self) -> (i32, i32) {
        match self {
            SoundStream::Native { latest_l, latest_r, .. } => (latest_l, latest_r),
            SoundStream::OverSample { count, sum_l, sum_r, .. } => {
                if count == 0 {
                    (0i32, 0i32)
                } else {
                    (
                        spec_clamp(
                            spec_scale_trunc(sum_l as int, 1, count as int),
                            i32::MIN as int,
                            i32::MAX as int,
                        ) as i32,
                        spec_clamp(
                            spec_scale_trunc(sum_r as int, 1, count as int),
                            i32::MIN as int,
                            i32::MAX as int,
                        ) as i32,
                    )
                }
            },
            SoundStream::NearestDown { latest_l, latest_r, .. } => (latest_l, latest_r),
            SoundStream::LinearUp { output_rate, phase, prev_l, prev_r, next_l, next_r, .. } => {
                (
                    spec_interp(prev_l as int, next_l as int, phase as int, output_rate as int) as i32,
                    spec_interp(prev_r as int, next_r as int, phase as int, output_rate as int) as i32,
                )
            },
            SoundStream::SampleHold { next_l, next_r, .. } => (next_l, next_r),
        }
    }

    /// The state after one native sample is pushed.
    pub open spec fn after_push(self, l: i32, r: i32) -> SoundStream {
        match self {
            SoundStream::Native { sampling_rate, .. } => SoundStream::Native {
                sampling_rate,
                latest_l: l,
                latest_r: r,
                filled: true,
            },
            SoundStream::OverSample { native_rate, output_rate, phase, owed, count, sum_l, sum_r } => SoundStream::OverSample {
                native_rate,
                output_rate,
                phase,
                owed: (owed - 1) as u32,
                count: (count + 1) as u32,
                sum_l: (sum_l + l) as i128,
                sum_r: (sum_r + r) as i128,
            },
            SoundStream::NearestDown { native_rate, output_rate, phase, owed, .. } => SoundStream::NearestDown {
                native_rate,
                output_rate,
                phase,
                owed: (owed - 1) as u32,
                latest_l: l,
                latest_r: r,
            },
            SoundStream::LinearUp { native_rate, output_rate, phase, next_l, next_r, .. } => SoundStream::LinearUp {
                native_rate,
                output_rate,
                phase,
                pending: false,
                prev_l: next_l,
                prev_r: next_r,
                next_l: l,
                next_r: r,
            },
            SoundStream::SampleHold { native_rate, output_rate, phase, next_l, next_r, .. } => SoundStream::SampleHold {
                native_rate,
                output_rate,
                phase,
                pending: false,
                prev_l: next_l,
                prev_r: next_r,
                next_l: l,
                next_r: r,
            },
        }
    }

    /// The state after a drain: the phase advances by the native rate and
    /// wraps at the output rate, scheduling the ticks owed for the next
    /// output sample.
    pub open spec fn after_drain(self) -> SoundStream {
        match self {
            SoundStream::Native { sampling_rate, latest_l, latest_r, .. } => SoundStream::Native {
                sampling_rate,
                latest_l,
                latest_r,
                filled: false,
            },
            SoundStream::OverSample { native_rate, output_rate, phase, .. } => SoundStream::OverSample {
                native_rate,
                output_rate,
                phase: ((phase + native_rate) % (output_rate as int)) as u32,
                owed: ((phase + native_rate) / (output_rate as int)) as u32,
                count: 0u32,
                sum_l: 0i128,
                sum_r: 0i128,
            },
            SoundStream::NearestDown { native_rate, output_rate, phase, latest_l, latest_r, .. } => SoundStream::NearestDown {
                native_rate,
                output_rate,
                phase: ((phase + native_rate) % (output_rate as int)) as u32,
                owed: ((phase + native_rate) / (output_rate as int)) as u32,
                latest_l,
                latest_r,
            },
            SoundStream::LinearUp { native_rate, output_rate, phase, prev_l, prev_r, next_l, next_r, pending } => {
                let advanced = phase + native_rate;
                SoundStream::LinearUp {
                    native_rate,
                    output_rate,
                    phase: if advanced >= output_rate {
                        (advanced - output_rate) as u32
                    } else {
                        advanced as u32
                    },
                    pending: pending || advanced >= output_rate,
                    prev_l,
                    prev_r,
                    next_l,
                    next_r,
                }
            },
            SoundStream::SampleHold { native_rate, output_rate, phase, prev_l, prev_r, next_l, next_r, pending } => {
                let advanced = phase + native_rate;
                SoundStream::SampleHold {
                    native_rate,
                    output_rate,
                    phase: if advanced >= output_rate {
                        (advanced - output_rate) as u32
                    } else {
                        advanced as u32
                    },
                    pending: pending || advanced >= output_rate,
                    prev_l,
                    prev_r,
                    next_l,
                    next_r,
                }
            },
        }
    }

    /// The state after the chip-side rate is retuned to `rate` in
    /// place: the kind, the phase and every accumulated value stay; the
    /// new rate is clamped into the range the kind is valid for.
    pub open spec fn spec_retuned(self, rate: u32) -> SoundStream {
        match self {
            SoundStream::Native { latest_l, latest_r, filled, .. } => SoundStream::Native {
                sampling_rate: if rate >= 1 {
                    rate
                } else {
                    1u32
                },
                latest_l,
                latest_r,
                filled,
            },
            SoundStream::OverSample { output_rate, phase, owed, count, sum_l, sum_r, .. } => {
                let floor = if owed + count > output_rate {
                    (owed + count) as u32
                } else {
                    output_rate
                };
                SoundStream::OverSample {
                    native_rate: if rate >= floor {
                        rate
                    } else {
                        floor
                    },
                    output_rate,
                    phase,
                    owed,
                    count,
                    sum_l,
                    sum_r,
                }
            },
            SoundStream::NearestDown { output_rate, phase, owed, latest_l, latest_r, .. } => {
                let floor = if owed > output_rate {
                    owed
                } else {
                    output_rate
                };
                SoundStream::NearestDown {
                    native_rate: if rate >= floor {
                        rate
                    } else {
                        floor
                    },
                    output_rate,
                    phase,
                    owed,
                    latest_l,
                    latest_r,
                }
            },
            SoundStream::LinearUp { output_rate, phase, pending, prev_l, prev_r, next_l, next_r, .. } => SoundStream::LinearUp {
                native_rate: if rate == 0 {
                    1u32
                } else if rate < output_rate {
                    rate
                } else {
                    (output_rate - 1) as u32
                },
                output_rate,
                phase,
                pending,
                prev_l,
                prev_r,
                next_l,
                next_r,
            },
            SoundStream::SampleHold { output_rate, phase, pending, prev_l, prev_r, next_l, next_r, .. } => SoundStream::SampleHold {
                native_rate: if rate == 0 {
                    1u32
                } else if rate < output_rate {
                    rate
                } else {
                    (output_rate - 1) as u32
                },
                output_rate,
                phase,
                pending,
                prev_l,
                prev_r,
                next_l,
                next_r,
            },
        }
    }

    /// Pass-through for a chip whose native rate equals the output rate.
    pub fn new_native(sampling_rate: u32) -> (r: SoundStream)
        requires
            sampling_rate >= 1,
        ensures
            r == (SoundStream::Native {
                sampling_rate,
                latest_l: 0i32,
                latest_r: 0i32,
                filled: false,
            }),
            r.wf(),
    {
        SoundStream::Native { sampling_rate, latest_l: 0, latest_r: 0, filled: false }
    }

    /// Integrating downsampler for `native_rate >= output_rate`.
    pub fn new_over_sample(native_rate: u32, output_rate: u32) -> (r: SoundStream)
        requires
            1 <= output_rate <= native_rate,
        ensures
            r.wf(),
            r is OverSample,
            r.spec_sampling_rate() == native_rate,
            r.ticks_owed() == native_rate as int / output_rate as int,
    {
        SoundStream::OverSample {
            native_rate,
            output_rate,
            phase: native_rate % output_rate,
            owed: native_rate / output_rate,
            count: 0,
            sum_l: 0,
            sum_r: 0,
        }
    }

    /// Nearest-tick downsampler for `native_rate >= output_rate`.
    pub fn new_nearest_down(native_rate: u32, output_rate: u32) -> (r: SoundStream)
        requires
            1 <= output_rate <= native_rate,
        ensures
            r.wf(),
            r is NearestDown,
            r.spec_sampling_rate() == native_rate,
            r.ticks_owed() == native_rate as int / output_rate as int,
    {
        SoundStream::NearestDown {
            native_rate,
            output_rate,
            phase: native_rate % output_rate,
            owed: native_rate / output_rate,
            latest_l: 0,
            latest_r: 0,
        }
    }

    /// Linear-interpolation upsampler for `native_rate < output_rate`.
    pub fn new_linear_up(native_rate: u32, output_rate: u32) -> (r: SoundStream)
        requires
            1 <= native_rate < output_rate,
        ensures
            r.wf(),
            r is LinearUp,
            r.spec_sampling_rate() == native_rate,
            r.ticks_owed() == 1,
    {
        SoundStream::LinearUp {
            native_rate,
            output_rate,
            phase: 0,
            pending: true,
            prev_l: 0,
            prev_r: 0,
            next_l: 0,
            next_r: 0,
        }
    }

    /// Zero-order-hold upsampler for `native_rate < output_rate`.
    pub fn new_sample_hold(native_rate: u32, output_rate: u32) -> (r: SoundStream)
        requires
            1 <= native_rate < output_rate,
        ensures
            r.wf(),
            r is SampleHold,
            r.spec_sampling_rate() == native_rate,
            r.ticks_owed() == 1,
    {
        SoundStream::SampleHold {
            native_rate,
            output_rate,
            phase: 0,
            pending: true,
            prev_l: 0,
            prev_r: 0,
            next_l: 0,
            next_r: 0,
        }
    }

    /// How many chip ticks are owed right now.
    pub fn is_tick(&self) -> (t: Tick)
        ensures
            (t == Tick::No) == (self.ticks_owed() == 0),
            (t == Tick::One) == (self.ticks_owed() == 1),
            (t == Tick::More) == (self.ticks_owed() >= 2),
    {
        match self {
            SoundStream::Native { filled, .. } => {
                if *filled {
                    Tick::No
                } else {
                    Tick::One
                }
            },
            SoundStream::OverSample { owed, .. } => {
                if *owed == 0 {
                    Tick::No
                } else if *owed == 1 {
                    Tick::One
                } else {
                    Tick::More
                }
            },
            SoundStream::NearestDown { owed, .. } => {
                if *owed == 0 {
                    Tick::No
                } else if *owed == 1 {
                    Tick::One
                } else {
                    Tick::More
                }
            },
            SoundStream::LinearUp { pending, .. } => {
                if *pending {
                    Tick::One
                } else {
                    Tick::No
                }
            },
            SoundStream::SampleHold { pending, .. } => {
                if *pending {
                    Tick::One
                } else {
                    Tick::No
                }
            },
        }
    }

    /// The chip-side (native) sample rate the strategy is tuned to.
    pub fn get_sampling_rate(&self) -> (r: u32)
        ensures
            r == self.spec_sampling_rate(),
    {
        match self {
            SoundStream::Native { sampling_rate, .. } => *sampling_rate,
            SoundStream::OverSample { native_rate, .. } => *native_rate,
            SoundStream::NearestDown { native_rate, .. } => *native_rate,
            SoundStream::LinearUp { native_rate, .. } => *native_rate,
            SoundStream::SampleHold { native_rate, .. } => *native_rate,
        }
    }

    /// Accept one native-domain stereo sample, paying off one owed tick.
    pub fn push(&mut self, l: i32, r: i32)
        requires
            old(self).wf(),
            old(self).ticks_owed() >= 1,
        ensures
            *final(self) == old(self).after_push(l, r),
            final(self).wf(),
            final(self).ticks_owed() == old(self).ticks_owed() - 1,
    {
        match self {
            SoundStream::Native { latest_l, latest_r, filled, .. } => {
                *latest_l = l;
                *latest_r = r;
                *filled = true;
            },
            SoundStream::OverSample { owed, count, sum_l, sum_r, .. } => {
                *owed = *owed - 1;
                *count = *count + 1;
                *sum_l = *sum_l + l as i128;
                *sum_r = *sum_r + r as i128;
            },
            SoundStream::NearestDown { owed, latest_l, latest_r, .. } => {
                *owed = *owed - 1;
                *latest_l = l;
                *latest_r = r;
            },
            SoundStream::LinearUp { pending, prev_l, prev_r, next_l, next_r, .. } => {
                *prev_l = *next_l;
                *prev_r = *next_r;
                *next_l = l;
                *next_r = r;
                *pending = false;
            },
            SoundStream::SampleHold { pending, prev_l, prev_r, next_l, next_r, .. } => {
                *prev_l = *next_l;
                *prev_r = *next_r;
                *next_l = l;
                *next_r = r;
                *pending = false;
            },
        }
    }

    /// Yield the resampled stereo pair for this output sample and advance
    /// the phase, scheduling the ticks owed for the next one.
    pub fn drain(&mut self) -> (r: (i32, i32))
        requires
            old(self).wf(),
            old(self).ticks_owed() == 0,
        ensures
            r == old(self).drained(),
            *final(self) == old(self).after_drain(),
            final(self).wf(),
    {
        match self {
            SoundStream::Native { latest_l, latest_r, filled, .. } => {
                *filled = false;
                (*latest_l, *latest_r)
            },
            SoundStream::OverSample { native_rate, output_rate, phase, owed, count, sum_l, sum_r } => {
                let out = if *count == 0 {
                    (0i32, 0i32)
                } else {
                    (average_i128(*sum_l, *count), average_i128(*sum_r, *count))
                };
                let advanced: u64 = *phase as u64 + *native_rate as u64;
                *owed = (advanced / *output_rate as u64) as u32;
                *phase = (advanced % *output_rate as u64) as u32;
                *count = 0;
                *sum_l = 0;
                *sum_r = 0;
                proof {
                    lemma_phase_split(old(self)->OverSample_phase as int,
                        old(self)->OverSample_native_rate as int,
                        old(self)->OverSample_output_rate as int);
                }
                out
            },
            SoundStream::NearestDown { native_rate, output_rate, phase, owed, latest_l, latest_r } => {
                let out = (*latest_l, *latest_r);
                let advanced: u64 = *phase as u64 + *native_rate as u64;
                *owed = (advanced / *output_rate as u64) as u32;
                *phase = (advanced % *output_rate as u64) as u32;
                proof {
                    lemma_phase_split(old(self)->NearestDown_phase as int,
                        old(self)->NearestDown_native_rate as int,
                        old(self)->NearestDown_output_rate as int);
                }
                out
            },
            SoundStream::LinearUp { native_rate, output_rate, phase, pending, prev_l, prev_r, next_l, next_r } => {
                let out = (
                    interp_i32(*prev_l, *next_l, *phase, *output_rate),
                    interp_i32(*prev_r, *next_r, *phase, *output_rate),
                );
                let advanced: u64 = *phase as u64 + *native_rate as u64;
                if advanced >= *output_rate as u64 {
                    *phase = (advanced - *output_rate as u64) as u32;
                    *pending = true;
                } else {
                    *phase = advanced as u32;
                }
                out
            },
            SoundStream::SampleHold { native_rate, output_rate, phase, pending, next_l, next_r, .. } => {
                let out = (*next_l, *next_r);
                let advanced: u64 = *phase as u64 + *native_rate as u64;
                if advanced >= *output_rate as u64 {
                    *phase = (advanced - *output_rate as u64) as u32;
                    *pending = true;
                } else {
                    *phase = advanced as u32;
                }
                out
            },
        }
    }

    /// Retune the chip-side rate in place — a chip may re-derive its rate
    /// from a register write. The strategy keeps its kind and its phase;
    /// the new rate is clamped into the range the kind is valid for.
    pub fn set_sampling_rate(&mut self, rate: u32)
        requires
            old(self).wf(),
        ensures
            *final(self) == old(self).spec_retuned(rate),
            final(self).wf(),
            final(self).ticks_owed() == old(self).ticks_owed(),
            final(self).drained() == old(self).drained(),
            spec_same_kind_and_phase(*old(self), *final(self)),
    {
        match self {
            SoundStream::Native { sampling_rate, .. } => {
                *sampling_rate = if rate >= 1 {
                    rate
                } else {
                    1
                };
            },
            SoundStream::OverSample { native_rate, output_rate, owed, count, .. } => {
                let floor: u32 = if *owed + *count > *output_rate {
                    *owed + *count
                } else {
                    *output_rate
                };
                *native_rate = if rate >= floor {
                    rate
                } else {
                    floor
                };
            },
            SoundStream::NearestDown { native_rate, output_rate, owed, .. } => {
                let floor: u32 = if *owed > *output_rate {
                    *owed
                } else {
                    *output_rate
                };
                *native_rate = if rate >= floor {
                    rate
                } else {
                    floor
                };
            },
            SoundStream::LinearUp { native_rate, output_rate, .. } => {
                *native_rate = if rate == 0 {
                    1
                } else if rate < *output_rate {
                    rate
                } else {
                    *output_rate - 1
                };
            },
            SoundStream::SampleHold { native_rate, output_rate, .. } => {
                *native_rate = if rate == 0 {
                    1
                } else if rate < *output_rate {
                    rate
                } else {
                    *output_rate - 1
                };
            },
        }
    }
}

/// Splitting `phase + native` by `output` gives a quotient of at least
/// one (the next cycle owes a tick) and at most `native`, with the
/// remainder a proper phase again.
proof fn lemma_phase_split(phase: int, native: int, output: int)
    requires
        0 <= phase < output,
        output >= 1,
        native >= output,
    ensures
        1 <= (phase + native) / output <= native,
        0 <= (phase + native) % output < output,
{
    let total = phase + native;
    vstd::arithmetic::div_mod::lemma_fundamental_div_mod(total, output);
    assert((phase + native) / output >= 1) by (nonlinear_arith)
        requires
            0 <= phase < output,
            output >= 1,
            native >= output,
    ;
    assert((phase + native) / output <= native) by (nonlinear_arith)
        requires
            0 <= phase < output,
            output >= 1,
            native >= output,
    ;
}

/// The truncated average `sum / count`, saturated to the `i32` range.
fn average_i128(sum: i128, count: u32) -> (r: i32)
    requires
        count >= 1,
        -(count as int) * 0x8000_0000 <= sum <= (count as int) * 0x8000_0000,
    ensures
        r as int == spec_clamp(
            spec_scale_trunc(sum as int, 1, count as int),
            i32::MIN as int,
            i32::MAX as int,
        ),
{
    let neg = sum < 0;
    let mag: u64 = if neg {
        (-sum) as u64
    } else {
        sum as u64
    };
    proof {
        assert((count as int) * 0x8000_0000 <= 0x8000_0000_0000_0000) by (nonlinear_arith)
            requires
                count <= 0xFFFF_FFFFu32,
        ;
    }
    let avg: u64 = mag / count as u64;
    proof {
        let m = mag as int;
        let c = count as int;
        vstd::arithmetic::div_mod::lemma_fundamental_div_mod(m, c);
        assert(m / c <= 0x8000_0000) by (nonlinear_arith)
            requires
                c >= 1,
                0 <= m <= c * 0x8000_0000,
        ;
        assert(mag * 1 == mag) by (nonlinear_arith);
    }
    if neg {
        if avg >= 0x8000_0000u64 {
            i32::MIN
        } else {
            (-(avg as i64)) as i32
        }
    } else {
        if avg > i32::MAX as u64 {
            i32::MAX
        } else {
            avg as i32
        }
    }
}

/// Linear interpolation between `prev` and `next` at `phase / den`.
fn interp_i32(prev: i32, next: i32, phase: u32, den: u32) -> (r: i32)
    requires
        phase < den,
    ensures
        r as int == spec_interp(prev as int, next as int, phase as int, den as int),
{
    let diff: i64 = next as i64 - prev as i64;
    let neg = diff < 0;
    let mag: u64 = if neg {
        (-diff) as u64
    } else {
        diff as u64
    };
    proof {
        assert(mag * phase <= mag * den) by (nonlinear_arith)
            requires
                0 <= mag,
                0 <= phase <= den,
        ;
        assert(mag * den <= 0x1_0000_0000 * 0xFFFF_FFFFu64) by (nonlinear_arith)
            requires
                0 <= mag <= 0x1_0000_0000,
                0 <= den <= 0xFFFF_FFFFu32,
        ;
    }
    let scaled_wide: u64 = mag * phase as u64;
    let scaled: u64 = scaled_wide / den as u64;
    proof {
        let m = mag as int;
        let p = phase as int;
        let d = den as int;
        assert(m * p / d <= m) by (nonlinear_arith)
            requires
                0 <= m,
                0 <= p < d,
        ;
    }
    if neg {
        (prev as i64 - scaled as i64) as i32
    } else {
        (prev as i64 + scaled as i64) as i32
    }
}

/// The pass-through strategy signals exactly one owed tick per output
/// sample: after a push the signal is gone until a drain re-arms it, so
/// there is exactly one non-idle signal per native tick, with no drift.
pub proof fn lemma_native_one_tick_per_sample(s: SoundStream, l: i32, r: i32)
    requires
        s.wf(),
        s is Native,
        s.ticks_owed() == 1,
    ensures
        s.after_push(l, r).ticks_owed() == 0,
        s.after_push(l, r).after_drain().ticks_owed() == 1,
        s.after_push(l, r).drained() == (l, r),
{
}

/// With the native rate exactly twice the output rate, the nearest-tick
/// downsampler owes exactly two chip ticks for every output sample and
/// keeps only the most recent of the two: every other native tick is
/// retained, cycle after cycle, with no drift.
pub proof fn lemma_nearest_down_half_rate(s: SoundStream, a_l: i32, a_r: i32, b_l: i32, b_r: i32)
    requires
        s.wf(),
        s is NearestDown,
        s.spec_sampling_rate() == 2 * (s->NearestDown_output_rate as int),
        s.ticks_owed() == 0,
    ensures
        s.after_drain().ticks_owed() == 2,
        s.after_drain().after_push(a_l, a_r).after_push(b_l, b_r).ticks_owed() == 0,
        s.after_drain().after_push(a_l, a_r).after_push(b_l, b_r).drained() == (b_l, b_r),
        s.after_drain().after_push(a_l, a_r).after_push(b_l, b_r).wf(),
{
    let phase = s->NearestDown_phase as int;
    let output = s->NearestDown_output_rate as int;
    let native = s->NearestDown_native_rate as int;
    assert((phase + native) / output == 2 && (phase + native) % output == phase) by (nonlinear_arith)
        requires
            native == 2 * output,
            0 <= phase < output,
            output >= 1,
    ;
}

} // verus!
