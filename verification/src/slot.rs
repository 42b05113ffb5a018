//! The sound slot: the top-level orchestrator.
//!
//! A slot owns all sound devices grouped by chip type, the global
//! relationship between the external tick rate and the output sample
//! rate, the shared data blocks, and the output ring buffers that
//! [`SoundSlot::stream`] drains into fixed-size chunks.
//!
//! The tick-to-sample conversion is exact integer arithmetic: the slot
//! keeps a phase numerator `pos` below the output rate, each output
//! sample advances it by the external tick rate, and each external tick
//! subtracts the output rate. After `n` ticks that emitted `k` samples,
//! `k * tick_rate == n * output_rate + pos' - pos` — the sample count is
//! determined by the tick count and the rate ratio alone, with no drift.

use std::collections::VecDeque;

use vstd::prelude::*;
use vstd::pervasive::VecAdditionalExecFns;

use crate::chip::{
    chip_type_code, default_rom_indexes, spec_chip_type_code, spec_default_rom_indexes,
    RomBusType, RomIndex, SoundChip, SoundChipType,
};
use crate::data_stream::{DataBlock, DataStream, DataStreamView};
use crate::device::{spec_device_emitted, DataStreamMode, SoundDevice};
use crate::sample::{convert_sample_to_s16, mix, spec_clamp};
use crate::stream::{spec_same_kind_and_phase, SoundStream};
use crate::table::{
    lemma_table_find_push, lemma_table_find_range, lemma_table_update_at_key, spec_table_find,
    Table,
};

verus! {

/// Whether two device tables have the same shape: the same chip-type
/// keys in the same order, with the same number of instances each.
pub open spec fn device_shape_eq<C: SoundChip>(
    pre: Seq<(usize, Vec<SoundDevice<C>>)>,
    post: Seq<(usize, Vec<SoundDevice<C>>)>,
) -> bool {
    &&& post.len() == pre.len()
    &&& forall|g: int|
        0 <= g < pre.len() ==> (#[trigger] post[g]).0 == pre[g].0 && post[g].1@.len()
            == pre[g].1@.len()
}

/// Whether every device in the table is structurally sound.
pub open spec fn devices_wf<C: SoundChip>(devices: Seq<(usize, Vec<SoundDevice<C>>)>) -> bool {
    forall|g: int, d: int|
        0 <= g < devices.len() && 0 <= d < devices[g].1@.len() ==> (#[trigger] devices[g].1@[d]).wf()
}

/// Pick the resampling strategy for a chip, per the fixed per-chip-type
/// policy: a matching rate passes through; a faster chip is integrated
/// for the aliasing-prone square/pulse generators and nearest-sampled
/// otherwise; a slower chip is held for the stepped-output ADPCM decoder
/// and linearly interpolated otherwise.
pub fn select_sound_stream(
    sound_chip_type: SoundChipType,
    native_rate: u32,
    output_rate: u32,
) -> (r: SoundStream)
    requires
        native_rate >= 1,
        output_rate >= 1,
    ensures
        r.wf(),
        r.spec_sampling_rate() == native_rate,
        native_rate == output_rate ==> r is Native,
        native_rate > output_rate ==> if sound_chip_type == SoundChipType::SEGAPSG
            || sound_chip_type == SoundChipType::SN76489 || sound_chip_type == SoundChipType::PWM {
            r is OverSample
        } else {
            r is NearestDown
        },
        native_rate < output_rate ==> if sound_chip_type == SoundChipType::OKIM6258 {
            r is SampleHold
        } else {
            r is LinearUp
        },
{
    if native_rate == output_rate {
        SoundStream::new_native(native_rate)
    } else if native_rate > output_rate {
        match sound_chip_type {
            SoundChipType::SEGAPSG | SoundChipType::SN76489 | SoundChipType::PWM => {
                SoundStream::new_over_sample(native_rate, output_rate)
            },
            _ => SoundStream::new_nearest_down(native_rate, output_rate),
        }
    } else {
        match sound_chip_type {
            SoundChipType::OKIM6258 => SoundStream::new_sample_hold(native_rate, output_rate),
            _ => SoundStream::new_linear_up(native_rate, output_rate),
        }
    }
}

/// The saturating left-to-right mix of `parts` on top of `acc`.
pub open spec fn spec_saturating_fold(acc: (i32, i32), parts: Seq<(i32, i32)>) -> (i32, i32)
    decreases parts.len(),
{
    if parts.len() == 0 {
        acc
    } else {
        let rest = spec_saturating_fold(acc, parts.drop_last());
        (
            spec_clamp(rest.0 + parts.last().0, i32::MIN as int, i32::MAX as int) as i32,
            spec_clamp(rest.1 + parts.last().1, i32::MIN as int, i32::MAX as int) as i32,
        )
    }
}

/// Whether, device by device, `parts` are outputs one generate pass
/// over the group can have produced while turning `pre` into `post`
/// (see [`spec_device_emitted`]).
pub open spec fn spec_group_emitted<C: SoundChip>(
    pre: Seq<SoundDevice<C>>,
    post: Seq<SoundDevice<C>>,
    parts: Seq<(i32, i32)>,
) -> bool {
    &&& post.len() == pre.len()
    &&& parts.len() == pre.len()
    &&& forall|d: int|
        0 <= d < pre.len() ==> spec_device_emitted(pre[d], post[d], #[trigger] parts[d])
}

/// Whether, group by group, `parts` are the per-device outputs one
/// generate pass over the whole device table can have produced.
pub open spec fn spec_tables_emitted<C: SoundChip>(
    pre: Seq<(usize, Vec<SoundDevice<C>>)>,
    post: Seq<(usize, Vec<SoundDevice<C>>)>,
    parts: Seq<Seq<(i32, i32)>>,
) -> bool {
    &&& post.len() == pre.len()
    &&& parts.len() == pre.len()
    &&& forall|g: int|
        0 <= g < pre.len() ==> (#[trigger] post[g]).0 == pre[g].0 && spec_group_emitted(
            pre[g].1@,
            post[g].1@,
            parts[g],
        )
}

/// The saturating mix of all per-device parts, in device-type then
/// instance order, starting from silence.
pub open spec fn spec_fold_groups(acc: (i32, i32), parts: Seq<Seq<(i32, i32)>>) -> (i32, i32)
    decreases parts.len(),
{
    if parts.len() == 0 {
        acc
    } else {
        spec_saturating_fold(spec_fold_groups(acc, parts.drop_last()), parts.last())
    }
}

/// Whether one output sample was mixed out of the device table: every
/// device was asked once, in order, and `out` is the saturating mix of
/// their outputs starting from silence.
pub open spec fn spec_mixed_sample<C: SoundChip>(
    pre: Seq<(usize, Vec<SoundDevice<C>>)>,
    post: Seq<(usize, Vec<SoundDevice<C>>)>,
    out: (i32, i32),
) -> bool {
    exists|parts: Seq<Seq<(i32, i32)>>|
        #![trigger spec_tables_emitted(pre, post, parts)]
        {
            &&& spec_tables_emitted(pre, post, parts)
            &&& out == spec_fold_groups((0i32, 0i32), parts)
        }
}

/// Whether `mids` is a chain of device-table states that links `pre`
/// to `post` and mixes exactly the given samples, one full pass per
/// appended sample.
pub open spec fn spec_trace_links<C: SoundChip>(
    pre: Seq<(usize, Vec<SoundDevice<C>>)>,
    post: Seq<(usize, Vec<SoundDevice<C>>)>,
    samples_l: Seq<i32>,
    samples_r: Seq<i32>,
    mids: Seq<Seq<(usize, Vec<SoundDevice<C>>)>>,
) -> bool {
    &&& samples_r.len() == samples_l.len()
    &&& mids.len() == samples_l.len() + 1
    &&& mids[0] == pre
    &&& mids[samples_l.len() as int] == post
    &&& forall|k: int|
        0 <= k < samples_l.len() ==> spec_mixed_sample(
            #[trigger] mids[k],
            mids[k + 1],
            (samples_l[k], samples_r[k]),
        )
}

/// Whether the samples are, in order, mixed outputs of a chain of
/// device-table states from `pre` to `post`: each appended pair is one
/// full pass over every device, so no appended sample is invented.
pub open spec fn spec_mix_trace<C: SoundChip>(
    pre: Seq<(usize, Vec<SoundDevice<C>>)>,
    post: Seq<(usize, Vec<SoundDevice<C>>)>,
    samples_l: Seq<i32>,
    samples_r: Seq<i32>,
) -> bool {
    exists|mids: Seq<Seq<(usize, Vec<SoundDevice<C>>)>>|
        #![trigger spec_trace_links(pre, post, samples_l, samples_r, mids)]
        spec_trace_links(pre, post, samples_l, samples_r, mids)
}

/// Device-table shape is preserved when nothing changes.
proof fn lemma_shape_refl<C: SoundChip>(s: Seq<(usize, Vec<SoundDevice<C>>)>)
    ensures
        device_shape_eq(s, s),
{
}

/// Device-table shape preservation composes.
proof fn lemma_shape_trans<C: SoundChip>(
    a: Seq<(usize, Vec<SoundDevice<C>>)>,
    b: Seq<(usize, Vec<SoundDevice<C>>)>,
    c: Seq<(usize, Vec<SoundDevice<C>>)>,
)
    requires
        device_shape_eq(a, b),
        device_shape_eq(b, c),
    ensures
        device_shape_eq(a, c),
{
    assert forall|g: int|
        0 <= g < a.len() implies (#[trigger] c[g]).0 == a[g].0 && c[g].1@.len() == a[g].1@.len() by {
        assert(b[g].0 == a[g].0 && b[g].1@.len() == a[g].1@.len());
        assert(c[g].0 == b[g].0 && c[g].1@.len() == b[g].1@.len());
    }
}

/// Replacing one group with one of equal key and size keeps the shape
/// and, when the new group is sound, overall soundness.
proof fn lemma_shape_update_group<C: SoundChip>(
    pre: Seq<(usize, Vec<SoundDevice<C>>)>,
    post: Seq<(usize, Vec<SoundDevice<C>>)>,
    at: int,
)
    requires
        devices_wf(pre),
        0 <= at < pre.len(),
        post.len() == pre.len(),
        forall|g: int| 0 <= g < pre.len() && g != at ==> post[g] == pre[g],
        post[at].0 == pre[at].0,
        post[at].1@.len() == pre[at].1@.len(),
        forall|d: int| 0 <= d < post[at].1@.len() ==> (#[trigger] post[at].1@[d]).wf(),
    ensures
        device_shape_eq(pre, post),
        devices_wf(post),
{
    assert forall|g: int|
        0 <= g < pre.len() implies (#[trigger] post[g]).0 == pre[g].0 && post[g].1@.len()
        == pre[g].1@.len() by {}
    assert forall|g: int, d: int|
        0 <= g < post.len() && 0 <= d < post[g].1@.len() implies (#[trigger] post[g].1@[d]).wf() by {
        if g != at {
            assert(post[g] == pre[g]);
            assert(pre[g].1@[d].wf());
        }
    }
}

/// The sample count an update run emits is the ceiling the rate ratio
/// dictates: from the update relation
/// `emitted * tick_rate == tick_count * output_rate + pos1 - pos0` and
/// the final phase bound, the emitted count is exactly
/// `ceil((tick_count * output_rate - pos0) / tick_rate)` — deterministic
/// from the tick count and the rates alone, so arbitrarily long runs
/// accumulate no drift beyond the sub-tick phase.
pub proof fn lemma_update_sample_count(
    tick_rate: int,
    output_rate: int,
    pos0: int,
    pos1: int,
    emitted: int,
    tick_count: int,
)
    requires
        1 <= tick_rate <= output_rate,
        tick_count >= 1,
        0 <= pos0 < output_rate,
        0 <= pos1 < tick_rate,
        emitted >= 0,
        emitted * tick_rate == tick_count * output_rate + pos1 - pos0,
    ensures
        emitted == (tick_count * output_rate - pos0 + tick_rate - 1) / tick_rate,
{
    let x = tick_count * output_rate - pos0 + tick_rate - 1;
    assert(x == emitted * tick_rate + (tick_rate - 1 - pos1));
    vstd::arithmetic::div_mod::lemma_fundamental_div_mod_converse(
        x,
        tick_rate,
        emitted,
        tick_rate - 1 - pos1,
    );
}

/// After one device was mutated in place — same group, same instance
/// slot — the device table keeps its keys, shape and soundness, and
/// every other device is untouched.
proof fn lemma_route_update<C: SoundChip>(
    pre: Table<Vec<SoundDevice<C>>>,
    post: Table<Vec<SoundDevice<C>>>,
    g: int,
    index: int,
    code: usize,
)
    requires
        devices_wf(pre@),
        0 <= g < pre@.len(),
        spec_table_find(pre@, code) == Some(g),
        post@.len() == pre@.len(),
        forall|j: int| 0 <= j < pre@.len() && j != g ==> post@[j] == pre@[j],
        post@[g].0 == pre@[g].0,
        post@[g].1@.len() == pre@[g].1@.len(),
        0 <= index < pre@[g].1@.len(),
        forall|d: int| 0 <= d < pre@[g].1@.len() && d != index ==> post@[g].1@[d] == pre@[g].1@[d],
        post@[g].1@[index].wf(),
    ensures
        devices_wf(post@),
        device_shape_eq(pre@, post@),
        forall|k: usize| #[trigger] post.spec_contains(k) == pre.spec_contains(k),
        forall|k: usize|
            k != code && pre.spec_contains(k) ==> #[trigger] post.spec_at(k) == pre.spec_at(k),
        post.spec_at(code)@.len() == pre.spec_at(code)@.len(),
        forall|d: int|
            0 <= d < pre.spec_at(code)@.len() && d != index ==> #[trigger] post.spec_at(code)@[d]
                == pre.spec_at(code)@[d],
        post.spec_at(code)@[index] == post@[g].1@[index],
        pre.spec_at(code)@[index] == pre@[g].1@[index],
{
    lemma_table_find_range(pre@, code);
    lemma_table_update_at_key(pre@, post@, g);
    assert forall|g2: int, d: int|
        0 <= g2 < post@.len() && 0 <= d < post@[g2].1@.len() implies (
    #[trigger] post@[g2].1@[d]).wf() by {
        if g2 == g {
            if d != index {
                assert(post@[g].1@[d] == pre@[g].1@[d]);
                assert(pre@[g].1@[d].wf());
            }
        } else {
            assert(post@[g2] == pre@[g2]);
            assert(pre@[g2].1@[d].wf());
        }
    }
    assert forall|g2: int|
        0 <= g2 < pre@.len() implies (#[trigger] post@[g2]).0 == pre@[g2].0 && post@[g2].1@.len()
        == pre@[g2].1@.len() by {}
}

/// The update relation is additive across consecutive runs: ticks fed
/// in one call or split over many calls emit the same total sample
/// count, so repeated small updates accumulate no error against one
/// large one.
pub proof fn lemma_update_relation_composes(
    tick_rate: int,
    output_rate: int,
    pos0: int,
    pos1: int,
    pos2: int,
    emitted1: int,
    emitted2: int,
    ticks1: int,
    ticks2: int,
)
    requires
        emitted1 * tick_rate == ticks1 * output_rate + pos1 - pos0,
        emitted2 * tick_rate == ticks2 * output_rate + pos2 - pos1,
    ensures
        (emitted1 + emitted2) * tick_rate == (ticks1 + ticks2) * output_rate + pos2 - pos0,
{
    assert((emitted1 + emitted2) * tick_rate == emitted1 * tick_rate + emitted2 * tick_rate)
        by (nonlinear_arith);
    assert((ticks1 + ticks2) * output_rate == ticks1 * output_rate + ticks2 * output_rate)
        by (nonlinear_arith);
}

/// The top-level mixing engine.
pub struct SoundSlot<C: SoundChip> {
    external_tick_rate: u32,
    output_sampling_rate: u32,
    output_sampling_pos: u32,
    output_sample_chunk_size: usize,
    output_sampling_l: Vec<i32>,
    output_sampling_r: Vec<i32>,
    output_sampling_s16le: Vec<i16>,
    output_sampling_buffer_l: VecDeque<i32>,
    output_sampling_buffer_r: VecDeque<i32>,
    sound_device: Table<Vec<SoundDevice<C>>>,
    data_block: Table<DataBlock>,
}

impl<C: SoundChip> SoundSlot<C> {
    /// The external driving clock rate, in ticks per second.
    pub closed spec fn spec_tick_rate(&self) -> u32 {
        self.external_tick_rate
    }

    /// The output sample rate, in samples per second.
    pub closed spec fn spec_output_rate(&self) -> u32 {
        self.output_sampling_rate
    }

    /// The fractional tick/sample phase, as a numerator below the output
    /// rate.
    pub closed spec fn spec_pos(&self) -> u32 {
        self.output_sampling_pos
    }

    /// The fixed size of one drained chunk, in samples.
    pub closed spec fn spec_chunk_size(&self) -> usize {
        self.output_sample_chunk_size
    }

    /// The left output ring buffer, oldest sample first.
    pub closed spec fn spec_buffer_l(&self) -> Seq<i32> {
        self.output_sampling_buffer_l@
    }

    /// The right output ring buffer, oldest sample first.
    pub closed spec fn spec_buffer_r(&self) -> Seq<i32> {
        self.output_sampling_buffer_r@
    }

    /// The flattened left output chunk.
    pub closed spec fn spec_out_l(&self) -> Seq<i32> {
        self.output_sampling_l@
    }

    /// The flattened right output chunk.
    pub closed spec fn spec_out_r(&self) -> Seq<i32> {
        self.output_sampling_r@
    }

    /// The interleaved 16-bit PCM conversion buffer.
    pub closed spec fn spec_out_s16le(&self) -> Seq<i16> {
        self.output_sampling_s16le@
    }

    /// The devices, grouped by chip-type code in first-use order.
    pub closed spec fn spec_devices(&self) -> Table<Vec<SoundDevice<C>>> {
        self.sound_device
    }

    /// The data blocks, keyed by id.
    pub closed spec fn spec_data_blocks(&self) -> Table<DataBlock> {
        self.data_block
    }

    /// The number of buffered output samples not yet drained.
    pub open spec fn buffered(&self) -> nat {
        self.spec_buffer_l().len()
    }

    /// Whether a device exists for this chip type and instance index.
    pub open spec fn spec_has_device(&self, sound_chip_type: SoundChipType, index: int) -> bool {
        &&& self.spec_devices().spec_contains(spec_chip_type_code(sound_chip_type))
        &&& 0 <= index < self.spec_devices().spec_at(spec_chip_type_code(sound_chip_type))@.len()
    }

    /// The device at this chip type and instance index (meaningful when
    /// present).
    pub open spec fn spec_device(&self, sound_chip_type: SoundChipType, index: int) -> SoundDevice<
        C,
    >
        recommends
            self.spec_has_device(sound_chip_type, index),
    {
        self.spec_devices().spec_at(spec_chip_type_code(sound_chip_type))@[index]
    }

    /// Structural soundness: the rates respect the oversampling-only
    /// invariant, the phase is a proper numerator, the two ring buffers
    /// run in lockstep, the flattened chunks have the configured size,
    /// and every device is sound.
    pub open spec fn wf(&self) -> bool {
        &&& 1 <= self.spec_tick_rate() <= self.spec_output_rate()
        &&& self.spec_pos() < self.spec_output_rate()
        &&& self.spec_buffer_l().len() == self.spec_buffer_r().len()
        &&& self.spec_out_l().len() == self.spec_chunk_size()
        &&& self.spec_out_r().len() == self.spec_chunk_size()
        &&& self.spec_out_s16le().len() == 2 * self.spec_chunk_size()
        &&& devices_wf(self.spec_devices()@)
    }

    /// Build an empty slot.
    ///
    /// The output rate must be at least the external tick rate
    /// (oversampling-only at the slot boundary) and at least one tick
    /// per second must drive the slot; the chunk size must leave room
    /// for the interleaved 16-bit buffer.
    pub fn new(
        external_tick_rate: u32,
        output_sampling_rate: u32,
        output_sample_chunk_size: usize,
    ) -> (r: SoundSlot<C>)
        requires
            1 <= external_tick_rate <= output_sampling_rate,
            output_sample_chunk_size * 2 <= usize::MAX,
        ensures
            r.wf(),
            r.spec_tick_rate() == external_tick_rate,
            r.spec_output_rate() == output_sampling_rate,
            r.spec_pos() == 0,
            r.spec_chunk_size() == output_sample_chunk_size,
            r.buffered() == 0,
            r.spec_devices()@.len() == 0,
            r.spec_data_blocks()@.len() == 0,
            forall|i: int| 0 <= i < output_sample_chunk_size ==> r.spec_out_l()[i] == 0,
            forall|i: int| 0 <= i < output_sample_chunk_size ==> r.spec_out_r()[i] == 0,
    {
        SoundSlot {
            external_tick_rate,
            output_sampling_rate,
            output_sampling_pos: 0,
            output_sample_chunk_size,
            output_sampling_l: vec![0i32; output_sample_chunk_size],
            output_sampling_r: vec![0i32; output_sample_chunk_size],
            output_sampling_s16le: vec![0i16; output_sample_chunk_size * 2],
            output_sampling_buffer_l: VecDeque::new(),
            output_sampling_buffer_r: VecDeque::new(),
            sound_device: Table::new(),
            data_block: Table::new(),
        }
    }

    /// Whether a full chunk is buffered and ready to drain.
    pub fn is_stream_filled(&self) -> (r: bool)
        ensures
            r == (self.buffered() >= self.spec_chunk_size()),
    {
        self.output_sampling_buffer_l.len() >= self.output_sample_chunk_size
    }

    /// Borrow the flattened left output chunk.
    pub fn get_output_sampling_l_ref(&self) -> (r: &Vec<i32>)
        ensures
            r@ == self.spec_out_l(),
    {
        &self.output_sampling_l
    }

    /// Borrow the flattened right output chunk.
    pub fn get_output_sampling_r_ref(&self) -> (r: &Vec<i32>)
        ensures
            r@ == self.spec_out_r(),
    {
        &self.output_sampling_r
    }

    /// Retune the external tick rate.
    ///
    /// This recomputes only the tick/sample relationship; the phase is
    /// kept, so doing this after samples have been generated produces a
    /// discontinuity (a documented limitation, not guarded against).
    pub fn change_external_tick_rate(&mut self, external_tick_rate: u32)
        requires
            old(self).wf(),
            1 <= external_tick_rate <= old(self).spec_output_rate(),
        ensures
            final(self).wf(),
            final(self).spec_tick_rate() == external_tick_rate,
            final(self).spec_output_rate() == old(self).spec_output_rate(),
            final(self).spec_pos() == old(self).spec_pos(),
            final(self).spec_chunk_size() == old(self).spec_chunk_size(),
            final(self).spec_buffer_l() == old(self).spec_buffer_l(),
            final(self).spec_buffer_r() == old(self).spec_buffer_r(),
            final(self).spec_out_l() == old(self).spec_out_l(),
            final(self).spec_out_r() == old(self).spec_out_r(),
            final(self).spec_out_s16le() == old(self).spec_out_s16le(),
            final(self).spec_devices() == old(self).spec_devices(),
            final(self).spec_data_blocks() == old(self).spec_data_blocks(),
    {
        self.external_tick_rate = external_tick_rate;
    }

    /// Ask every device for its next output-domain sample, in device-type
    /// then instance order, and mix the results with saturation.
    fn mix_one_sample(&mut self) -> (out: (i32, i32))
        requires
            old(self).wf(),
        ensures
            final(self).wf(),
            final(self).spec_tick_rate() == old(self).spec_tick_rate(),
            final(self).spec_output_rate() == old(self).spec_output_rate(),
            final(self).spec_pos() == old(self).spec_pos(),
            final(self).spec_chunk_size() == old(self).spec_chunk_size(),
            final(self).spec_buffer_l() == old(self).spec_buffer_l(),
            final(self).spec_buffer_r() == old(self).spec_buffer_r(),
            final(self).spec_out_l() == old(self).spec_out_l(),
            final(self).spec_out_r() == old(self).spec_out_r(),
            final(self).spec_out_s16le() == old(self).spec_out_s16le(),
            final(self).spec_data_blocks() == old(self).spec_data_blocks(),
            device_shape_eq(old(self).spec_devices()@, final(self).spec_devices()@),
            spec_mixed_sample(old(self).spec_devices()@, final(self).spec_devices()@, out),
    {
        let mut sample_l: i32 = 0;
        let mut sample_r: i32 = 0;
        let ghost mut all_parts: Seq<Seq<(i32, i32)>> = Seq::empty();
        let groups = self.sound_device.len();
        let mut g: usize = 0;
        proof {
            lemma_shape_refl(self.spec_devices()@);
            assert(old(self).spec_devices()@.take(0) =~= Seq::<
                (usize, Vec<SoundDevice<C>>),
            >::empty());
            assert(self.spec_devices()@.take(0) =~= Seq::<(usize, Vec<SoundDevice<C>>)>::empty());
        }
        while g < groups
            invariant
                g <= groups,
                self.wf(),
                groups == self.spec_devices()@.len(),
                groups == old(self).spec_devices()@.len(),
                self.spec_tick_rate() == old(self).spec_tick_rate(),
                self.spec_output_rate() == old(self).spec_output_rate(),
                self.spec_pos() == old(self).spec_pos(),
                self.spec_chunk_size() == old(self).spec_chunk_size(),
                self.spec_buffer_l() == old(self).spec_buffer_l(),
                self.spec_buffer_r() == old(self).spec_buffer_r(),
                self.spec_out_l() == old(self).spec_out_l(),
                self.spec_out_r() == old(self).spec_out_r(),
                self.spec_out_s16le() == old(self).spec_out_s16le(),
                self.spec_data_blocks() == old(self).spec_data_blocks(),
                device_shape_eq(old(self).spec_devices()@, self.spec_devices()@),
                forall|j: int|
                    g <= j < groups ==> #[trigger] self.spec_devices()@[j] == old(self).spec_devices()@[j],
                spec_tables_emitted(
                    old(self).spec_devices()@.take(g as int),
                    self.spec_devices()@.take(g as int),
                    all_parts,
                ),
                (sample_l, sample_r) == spec_fold_groups((0i32, 0i32), all_parts),
            decreases groups - g,
        {
            let ghost pre_table = self.spec_devices()@;
            let ghost acc_start = (sample_l, sample_r);
            let group = self.sound_device.value_at_mut(g);
            let ghost pre_group = group@;
            let ghost mut group_parts: Seq<(i32, i32)> = Seq::empty();
            let group_len = group.len();
            let mut d: usize = 0;
            proof {
                assert(group@.skip(0) =~= pre_group.skip(0));
            }
            while d < group_len
                invariant
                    d <= group_len,
                    group_len == group@.len(),
                    group_len == pre_group.len(),
                    forall|dd: int| 0 <= dd < group@.len() ==> (#[trigger] group@[dd]).wf(),
                    group@.skip(d as int) == pre_group.skip(d as int),
                    group_parts.len() == d,
                    forall|dd: int|
                        0 <= dd < d ==> spec_device_emitted(
                            pre_group[dd],
                            group@[dd],
                            #[trigger] group_parts[dd],
                        ),
                    (sample_l, sample_r) == spec_saturating_fold(acc_start, group_parts),
                decreases group_len - d,
            {
                let ghost acc_mid = (sample_l, sample_r);
                let ghost head_group = group@;
                let ghost head_parts = group_parts;
                proof {
                    assert(head_group.skip(d as int)[0] == head_group[d as int]);
                    assert(pre_group.skip(d as int)[0] == pre_group[d as int]);
                }
                let device = &mut group[d];
                let (device_l, device_r) = device.generate(d, &self.data_block);
                sample_l = mix(sample_l, device_l);
                sample_r = mix(sample_r, device_r);
                proof {
                    group_parts = group_parts.push((device_l, device_r));
                    assert(group_parts.drop_last() =~= head_parts);
                    assert(spec_device_emitted(
                        pre_group[d as int],
                        group@[d as int],
                        (device_l, device_r),
                    ));
                    assert forall|dd: int|
                        0 <= dd < d + 1 implies spec_device_emitted(
                        pre_group[dd],
                        group@[dd],
                        #[trigger] group_parts[dd],
                    ) by {
                        if dd < d {
                            assert(group@[dd] == head_group[dd]);
                            assert(group_parts[dd] == head_parts[dd]);
                        }
                    }
                    assert((sample_l, sample_r) == spec_saturating_fold(acc_start, group_parts));
                    assert forall|m: int|
                        0 <= m < group@.skip(d as int + 1).len() implies #[trigger] group@.skip(
                        d as int + 1,
                    )[m] == pre_group.skip(d as int + 1)[m] by {
                        assert(group@.skip(d as int + 1)[m] == group@[d as int + 1 + m]);
                        assert(pre_group.skip(d as int + 1)[m] == pre_group[d as int + 1 + m]);
                        assert(head_group.skip(d as int)[1 + m] == head_group[d as int + 1 + m]);
                        assert(pre_group.skip(d as int)[1 + m] == pre_group[d as int + 1 + m]);
                    }
                    assert(group@.skip(d as int + 1) =~= pre_group.skip(d as int + 1));
                }
                d = d + 1;
            }
            proof {
                assert(spec_group_emitted(pre_group, group@, group_parts));
            }
            proof {
                lemma_shape_update_group(pre_table, self.spec_devices()@, g as int);
                lemma_shape_trans(old(self).spec_devices()@, pre_table, self.spec_devices()@);
                let ghost head_all = all_parts;
                assert(old(self).spec_devices()@.take(g as int).len() == g as int);
                assert(head_all.len() == g as int);
                all_parts = all_parts.push(group_parts);
                assert(all_parts.drop_last() =~= head_all);
                assert(self.spec_devices()@.take(g as int) =~= pre_table.take(g as int));
                assert(pre_table[g as int] == old(self).spec_devices()@[g as int]);
                assert(spec_group_emitted(
                    old(self).spec_devices()@[g as int].1@,
                    self.spec_devices()@[g as int].1@,
                    group_parts,
                ));
                assert forall|j: int|
                    0 <= j < g + 1 implies (#[trigger] self.spec_devices()@.take(g as int + 1)[j]).0
                    == old(self).spec_devices()@.take(g as int + 1)[j].0 && spec_group_emitted(
                    old(self).spec_devices()@.take(g as int + 1)[j].1@,
                    self.spec_devices()@.take(g as int + 1)[j].1@,
                    all_parts[j],
                ) by {
                    if j < g {
                        assert(self.spec_devices()@.take(g as int + 1)[j]
                            == self.spec_devices()@.take(g as int)[j]);
                        assert(old(self).spec_devices()@.take(g as int + 1)[j] == old(self).spec_devices()@.take(g as int)[j]);
                        assert(all_parts[j] == head_all[j]);
                    } else {
                        assert(self.spec_devices()@.take(g as int + 1)[j]
                            == self.spec_devices()@[g as int]);
                        assert(old(self).spec_devices()@.take(g as int + 1)[j] == old(self).spec_devices()@[g as int]);
                    }
                }
                assert(spec_tables_emitted(
                    old(self).spec_devices()@.take(g as int + 1),
                    self.spec_devices()@.take(g as int + 1),
                    all_parts,
                ));
                assert((sample_l, sample_r) == spec_fold_groups((0i32, 0i32), all_parts));
                assert forall|j: int|
                    g + 1 <= j < groups implies #[trigger] self.spec_devices()@[j] == old(self).spec_devices()@[j] by {
                    assert(self.spec_devices()@[j] == pre_table[j]);
                }
            }
            g = g + 1;
        }
        proof {
            assert(old(self).spec_devices()@.take(groups as int) =~= old(self).spec_devices()@);
            assert(self.spec_devices()@.take(groups as int) =~= self.spec_devices()@);
            assert(spec_tables_emitted(
                old(self).spec_devices()@,
                self.spec_devices()@,
                all_parts,
            ));
        }
        (sample_l, sample_r)
    }

    /// Advance time by `tick_count` external ticks.
    ///
    /// For each tick, output samples are produced while the phase
    /// numerator is below the output rate — each sample mixes every
    /// device once and advances the phase by the tick rate — and then
    /// one output-rate's worth of phase is consumed. The relation
    /// `emitted * tick_rate == tick_count * output_rate + pos' - pos`
    /// pins the produced sample count exactly (see
    /// [`lemma_update_sample_count`]), and the appended samples are
    /// pinned to the devices' mixed outputs (see [`spec_mix_trace`]).
    pub fn update(&mut self, tick_count: usize)
        requires
            old(self).wf(),
        ensures
            final(self).wf(),
            final(self).spec_tick_rate() == old(self).spec_tick_rate(),
            final(self).spec_output_rate() == old(self).spec_output_rate(),
            final(self).spec_chunk_size() == old(self).spec_chunk_size(),
            final(self).spec_out_l() == old(self).spec_out_l(),
            final(self).spec_out_r() == old(self).spec_out_r(),
            final(self).spec_out_s16le() == old(self).spec_out_s16le(),
            final(self).spec_data_blocks() == old(self).spec_data_blocks(),
            device_shape_eq(old(self).spec_devices()@, final(self).spec_devices()@),
            final(self).buffered() >= old(self).buffered(),
            (final(self).buffered() - old(self).buffered()) * old(self).spec_tick_rate()
                == tick_count * old(self).spec_output_rate() + final(self).spec_pos() - old(self).spec_pos(),
            final(self).spec_buffer_l().take(old(self).buffered() as int) == old(self).spec_buffer_l(),
            final(self).spec_buffer_r().take(old(self).buffered() as int) == old(self).spec_buffer_r(),
            spec_mix_trace(
                old(self).spec_devices()@,
                final(self).spec_devices()@,
                final(self).spec_buffer_l().skip(old(self).buffered() as int),
                final(self).spec_buffer_r().skip(old(self).buffered() as int),
            ),
            tick_count >= 1 ==> final(self).spec_pos() < final(self).spec_tick_rate(),
            tick_count == 0 ==> *final(self) == *old(self),
    {
        let tick_rate = self.external_tick_rate;
        let output_rate = self.output_sampling_rate;
        let mut pos: u64 = self.output_sampling_pos as u64;
        let mut t: usize = 0;
        let ghost mut mids: Seq<Seq<(usize, Vec<SoundDevice<C>>)>> = Seq::empty().push(
            old(self).spec_devices()@,
        );
        proof {
            assert(self.spec_buffer_l().take(old(self).buffered() as int) =~= old(self).spec_buffer_l());
            assert(self.spec_buffer_r().take(old(self).buffered() as int) =~= old(self).spec_buffer_r());
            assert(self.spec_buffer_l().skip(old(self).buffered() as int) =~= Seq::<i32>::empty());
            assert(self.spec_buffer_r().skip(old(self).buffered() as int) =~= Seq::<i32>::empty());
            lemma_shape_refl(self.spec_devices()@);
        }
        while t < tick_count
            invariant
                t <= tick_count,
                self.wf(),
                tick_rate == self.spec_tick_rate(),
                output_rate == self.spec_output_rate(),
                self.spec_tick_rate() == old(self).spec_tick_rate(),
                self.spec_output_rate() == old(self).spec_output_rate(),
                self.spec_pos() == old(self).spec_pos(),
                self.spec_chunk_size() == old(self).spec_chunk_size(),
                self.spec_out_l() == old(self).spec_out_l(),
                self.spec_out_r() == old(self).spec_out_r(),
                self.spec_out_s16le() == old(self).spec_out_s16le(),
                self.spec_data_blocks() == old(self).spec_data_blocks(),
                device_shape_eq(old(self).spec_devices()@, self.spec_devices()@),
                self.buffered() >= old(self).buffered(),
                self.spec_buffer_l().take(old(self).buffered() as int) == old(self).spec_buffer_l(),
                self.spec_buffer_r().take(old(self).buffered() as int) == old(self).spec_buffer_r(),
                spec_trace_links(
                    old(self).spec_devices()@,
                    self.spec_devices()@,
                    self.spec_buffer_l().skip(old(self).buffered() as int),
                    self.spec_buffer_r().skip(old(self).buffered() as int),
                    mids,
                ),
                t == 0 ==> pos == old(self).spec_pos() && *self == *old(self),
                t >= 1 ==> pos < tick_rate,
                pos < output_rate,
                (self.buffered() - old(self).buffered()) * tick_rate == t * output_rate + pos
                    - old(self).spec_pos(),
            decreases tick_count - t,
        {
            while pos < output_rate as u64
                invariant
                    self.wf(),
                    tick_rate == self.spec_tick_rate(),
                    output_rate == self.spec_output_rate(),
                    self.spec_tick_rate() == old(self).spec_tick_rate(),
                    self.spec_output_rate() == old(self).spec_output_rate(),
                    self.spec_pos() == old(self).spec_pos(),
                    self.spec_chunk_size() == old(self).spec_chunk_size(),
                    self.spec_out_l() == old(self).spec_out_l(),
                    self.spec_out_r() == old(self).spec_out_r(),
                    self.spec_out_s16le() == old(self).spec_out_s16le(),
                    self.spec_data_blocks() == old(self).spec_data_blocks(),
                    device_shape_eq(old(self).spec_devices()@, self.spec_devices()@),
                    self.buffered() >= old(self).buffered(),
                    self.spec_buffer_l().take(old(self).buffered() as int) == old(self).spec_buffer_l(),
                    self.spec_buffer_r().take(old(self).buffered() as int) == old(self).spec_buffer_r(),
                    spec_trace_links(
                        old(self).spec_devices()@,
                        self.spec_devices()@,
                        self.spec_buffer_l().skip(old(self).buffered() as int),
                        self.spec_buffer_r().skip(old(self).buffered() as int),
                        mids,
                    ),
                    pos < output_rate + tick_rate,
                    (self.buffered() - old(self).buffered()) * tick_rate == t * output_rate + pos
                        - old(self).spec_pos(),
                decreases output_rate + tick_rate - pos,
            {
                let ghost emitted_pre = self.buffered() - old(self).buffered();
                let ghost pre_mix = self.spec_devices()@;
                let ghost head_mids = mids;
                let ghost head_sl = self.spec_buffer_l().skip(old(self).buffered() as int);
                let ghost head_sr = self.spec_buffer_r().skip(old(self).buffered() as int);
                let (sample_l, sample_r) = self.mix_one_sample();
                self.output_sampling_buffer_l.push_back(sample_l);
                self.output_sampling_buffer_r.push_back(sample_r);
                pos = pos + tick_rate as u64;
                proof {
                    lemma_shape_trans(old(self).spec_devices()@, pre_mix, self.spec_devices()@);
                    assert(self.spec_buffer_l().take(old(self).buffered() as int) =~= old(self).spec_buffer_l());
                    assert(self.spec_buffer_r().take(old(self).buffered() as int) =~= old(self).spec_buffer_r());
                    assert((emitted_pre + 1) * tick_rate == emitted_pre * tick_rate + tick_rate)
                        by (nonlinear_arith);
                    mids = mids.push(self.spec_devices()@);
                    assert(self.spec_buffer_l().skip(old(self).buffered() as int) =~= head_sl.push(
                        sample_l,
                    ));
                    assert(self.spec_buffer_r().skip(old(self).buffered() as int) =~= head_sr.push(
                        sample_r,
                    ));
                    assert(head_mids[head_sl.len() as int] == pre_mix);
                    assert(spec_mixed_sample(pre_mix, self.spec_devices()@, (sample_l, sample_r)));
                    assert forall|k: int|
                        0 <= k < head_sl.len() + 1 implies spec_mixed_sample(
                        #[trigger] mids[k],
                        mids[k + 1],
                        (
                            self.spec_buffer_l().skip(old(self).buffered() as int)[k],
                            self.spec_buffer_r().skip(old(self).buffered() as int)[k],
                        ),
                    ) by {
                        if k < head_sl.len() {
                            assert(mids[k] == head_mids[k]);
                            assert(mids[k + 1] == head_mids[k + 1]);
                            assert(self.spec_buffer_l().skip(old(self).buffered() as int)[k]
                                == head_sl[k]);
                            assert(self.spec_buffer_r().skip(old(self).buffered() as int)[k]
                                == head_sr[k]);
                            assert(spec_mixed_sample(
                                head_mids[k],
                                head_mids[k + 1],
                                (head_sl[k], head_sr[k]),
                            ));
                        } else {
                            assert(mids[k] == pre_mix);
                            assert(mids[k + 1] == self.spec_devices()@);
                            assert(self.spec_buffer_l().skip(old(self).buffered() as int)[k]
                                == sample_l);
                            assert(self.spec_buffer_r().skip(old(self).buffered() as int)[k]
                                == sample_r);
                        }
                    }
                    assert(spec_trace_links(
                        old(self).spec_devices()@,
                        self.spec_devices()@,
                        self.spec_buffer_l().skip(old(self).buffered() as int),
                        self.spec_buffer_r().skip(old(self).buffered() as int),
                        mids,
                    ));
                }
            }
            pos = pos - output_rate as u64;
            t = t + 1;
            proof {
                assert((t * output_rate) == (t - 1) * output_rate + output_rate)
                    by (nonlinear_arith);
            }
        }
        self.output_sampling_pos = pos as u32;
        proof {
            assert(spec_trace_links(
                old(self).spec_devices()@,
                self.spec_devices()@,
                self.spec_buffer_l().skip(old(self).buffered() as int),
                self.spec_buffer_r().skip(old(self).buffered() as int),
                mids,
            ));
        }
    }

    /// Whether positions `2k` and `2k+1` of an interleaved 16-bit buffer
    /// hold the clamped left and right samples at position `k`.
    pub open spec fn spec_s16_pair_ok(s16: Seq<i16>, left: Seq<i32>, right: Seq<i32>, k: int) -> bool {
        &&& s16[2 * k] as int == spec_clamp(left[k] as int, i16::MIN as int, i16::MAX as int)
        &&& s16[2 * k + 1] as int == spec_clamp(right[k] as int, i16::MIN as int, i16::MAX as int)
    }

    /// How many samples the next drain takes out of the ring buffers: a
    /// full chunk when enough is buffered, else whatever is there.
    pub open spec fn stream_take(&self) -> nat {
        if self.buffered() < self.spec_chunk_size() {
            self.buffered()
        } else {
            self.spec_chunk_size() as nat
        }
    }

    /// The exact effect of one [`SoundSlot::stream`] call: the drained
    /// prefix of the ring buffers lands at the front of the flattened
    /// chunks, a short drain zero-fills the rest (never stale data), and
    /// nothing else changes.
    pub open spec fn stream_spec(pre: SoundSlot<C>, post: SoundSlot<C>) -> bool {
        let take = pre.stream_take() as int;
        &&& post.spec_tick_rate() == pre.spec_tick_rate()
        &&& post.spec_output_rate() == pre.spec_output_rate()
        &&& post.spec_pos() == pre.spec_pos()
        &&& post.spec_chunk_size() == pre.spec_chunk_size()
        &&& post.spec_out_s16le() == pre.spec_out_s16le()
        &&& post.spec_devices() == pre.spec_devices()
        &&& post.spec_data_blocks() == pre.spec_data_blocks()
        &&& post.spec_buffer_l() == pre.spec_buffer_l().skip(take)
        &&& post.spec_buffer_r() == pre.spec_buffer_r().skip(take)
        &&& post.spec_out_l().len() == pre.spec_out_l().len()
        &&& post.spec_out_r().len() == pre.spec_out_r().len()
        &&& forall|k: int|
            0 <= k < take ==> #[trigger] post.spec_out_l()[k] == pre.spec_buffer_l()[k]
                && post.spec_out_r()[k] == pre.spec_buffer_r()[k]
        &&& pre.buffered() < pre.spec_chunk_size() ==> forall|k: int|
            take <= k < pre.spec_chunk_size() ==> #[trigger] post.spec_out_l()[k] == 0
                && post.spec_out_r()[k] == 0
    }

    /// Drain up to one chunk from the ring buffers into the flattened
    /// output arrays; when less than a chunk is buffered, the rest of
    /// the arrays is zero-filled first, so no stale samples survive.
    pub fn stream(&mut self)
        requires
            old(self).wf(),
        ensures
            final(self).wf(),
            Self::stream_spec(*old(self), *final(self)),
            final(self).buffered() == old(self).buffered() - old(self).stream_take(),
    {
        let buffered = self.output_sampling_buffer_l.len();
        let mut chunk_size = self.output_sample_chunk_size;
        if chunk_size > buffered {
            chunk_size = buffered;
            let n = self.output_sample_chunk_size;
            let mut i: usize = 0;
            while i < n
                invariant
                    i <= n,
                    n == self.spec_chunk_size(),
                    self.spec_out_l().len() == n,
                    self.spec_out_r().len() == n,
                    forall|j: int| 0 <= j < i ==> self.spec_out_l()[j] == 0,
                    forall|j: int| 0 <= j < i ==> self.spec_out_r()[j] == 0,
                    self.spec_tick_rate() == old(self).spec_tick_rate(),
                    self.spec_output_rate() == old(self).spec_output_rate(),
                    self.spec_pos() == old(self).spec_pos(),
                    self.spec_chunk_size() == old(self).spec_chunk_size(),
                    self.spec_out_s16le() == old(self).spec_out_s16le(),
                    self.spec_devices() == old(self).spec_devices(),
                    self.spec_data_blocks() == old(self).spec_data_blocks(),
                    self.spec_buffer_l() == old(self).spec_buffer_l(),
                    self.spec_buffer_r() == old(self).spec_buffer_r(),
                    self.wf(),
                decreases n - i,
            {
                self.output_sampling_l.set(i, 0);
                self.output_sampling_r.set(i, 0);
                i = i + 1;
            }
        }
        let mut i: usize = 0;
        proof {
            assert(self.spec_buffer_l().skip(0) =~= self.spec_buffer_l());
            assert(self.spec_buffer_r().skip(0) =~= self.spec_buffer_r());
        }
        while i < chunk_size
            invariant
                old(self).wf(),
                i <= chunk_size,
                chunk_size == old(self).stream_take(),
                chunk_size <= self.spec_chunk_size(),
                self.spec_out_l().len() == self.spec_chunk_size(),
                self.spec_out_r().len() == self.spec_chunk_size(),
                self.spec_buffer_l() == old(self).spec_buffer_l().skip(i as int),
                self.spec_buffer_r() == old(self).spec_buffer_r().skip(i as int),
                self.spec_buffer_l().len() == self.spec_buffer_r().len(),
                forall|j: int|
                    0 <= j < i ==> #[trigger] self.spec_out_l()[j] == old(self).spec_buffer_l()[j]
                        && self.spec_out_r()[j] == old(self).spec_buffer_r()[j],
                forall|j: int|
                    i <= j < self.spec_chunk_size() && old(self).buffered() < old(self).spec_chunk_size() ==> #[trigger] self.spec_out_l()[j] == 0
                        && self.spec_out_r()[j] == 0,
                self.spec_tick_rate() == old(self).spec_tick_rate(),
                self.spec_output_rate() == old(self).spec_output_rate(),
                self.spec_pos() == old(self).spec_pos(),
                self.spec_chunk_size() == old(self).spec_chunk_size(),
                self.spec_out_s16le() == old(self).spec_out_s16le(),
                self.spec_devices() == old(self).spec_devices(),
                self.spec_data_blocks() == old(self).spec_data_blocks(),
                self.wf(),
            decreases chunk_size - i,
        {
            let ghost pre_out_l = self.spec_out_l();
            let ghost pre_out_r = self.spec_out_r();
            let value_l = self.output_sampling_buffer_l.pop_front().unwrap();
            let value_r = self.output_sampling_buffer_r.pop_front().unwrap();
            proof {
                assert(value_l == old(self).spec_buffer_l().skip(i as int)[0]);
                assert(value_r == old(self).spec_buffer_r().skip(i as int)[0]);
                assert(self.spec_buffer_l() =~= old(self).spec_buffer_l().skip(i as int + 1));
                assert(self.spec_buffer_r() =~= old(self).spec_buffer_r().skip(i as int + 1));
            }
            self.output_sampling_l.set(i, value_l);
            self.output_sampling_r.set(i, value_r);
            proof {
                assert forall|j: int|
                    0 <= j < i + 1 implies #[trigger] self.spec_out_l()[j] == old(self).spec_buffer_l()[j] && self.spec_out_r()[j] == old(self).spec_buffer_r()[j] by {
                    if j < i {
                        assert(pre_out_l[j] == old(self).spec_buffer_l()[j]);
                        assert(pre_out_r[j] == old(self).spec_buffer_r()[j]);
                    }
                }
                assert forall|j: int|
                    i + 1 <= j < self.spec_chunk_size() && old(self).buffered() < old(self).spec_chunk_size() implies #[trigger] self.spec_out_l()[j] == 0
                    && self.spec_out_r()[j] == 0 by {
                    assert(self.spec_out_l()[j] == pre_out_l[j]);
                    assert(self.spec_out_r()[j] == pre_out_r[j]);
                }
            }
            i = i + 1;
        }
    }

    /// Two drains with no update in between leave only silence: the
    /// first empties the buffers (when at most one chunk was buffered),
    /// so the second zero-fills the whole chunk and duplicates nothing.
    pub proof fn lemma_stream_twice_zero_fills(s0: SoundSlot<C>, s1: SoundSlot<C>, s2: SoundSlot<C>)
        requires
            s0.buffered() <= s0.spec_chunk_size(),
            Self::stream_spec(s0, s1),
            s1.buffered() == s0.buffered() - s0.stream_take(),
            Self::stream_spec(s1, s2),
        ensures
            forall|k: int|
                0 <= k < s2.spec_chunk_size() ==> #[trigger] s2.spec_out_l()[k] == 0
                    && s2.spec_out_r()[k] == 0,
    {
        assert(s1.buffered() == 0);
        assert(s1.stream_take() == 0);
        if s1.spec_chunk_size() > 0 {
            assert(s1.buffered() < s1.spec_chunk_size());
        }
    }

    /// Refresh the interleaved 16-bit PCM buffer from the flattened
    /// chunks — each sample clamped to the 16-bit range — and borrow it.
    pub fn get_output_sampling_s16le_ref(&mut self) -> (r: &Vec<i16>)
        requires
            old(self).wf(),
        ensures
            final(self).wf(),
            r@ == final(self).spec_out_s16le(),
            final(self).spec_tick_rate() == old(self).spec_tick_rate(),
            final(self).spec_output_rate() == old(self).spec_output_rate(),
            final(self).spec_pos() == old(self).spec_pos(),
            final(self).spec_chunk_size() == old(self).spec_chunk_size(),
            final(self).spec_out_l() == old(self).spec_out_l(),
            final(self).spec_out_r() == old(self).spec_out_r(),
            final(self).spec_buffer_l() == old(self).spec_buffer_l(),
            final(self).spec_buffer_r() == old(self).spec_buffer_r(),
            final(self).spec_devices() == old(self).spec_devices(),
            final(self).spec_data_blocks() == old(self).spec_data_blocks(),
            forall|k: int|
                0 <= k < old(self).spec_chunk_size() ==> #[trigger] Self::spec_s16_pair_ok(
                    final(self).spec_out_s16le(),
                    old(self).spec_out_l(),
                    old(self).spec_out_r(),
                    k,
                ),
    {
        let n = self.output_sample_chunk_size;
        let mut i: usize = 0;
        while i < n
            invariant
                i <= n,
                n == self.spec_chunk_size(),
                self.wf(),
                self.spec_tick_rate() == old(self).spec_tick_rate(),
                self.spec_output_rate() == old(self).spec_output_rate(),
                self.spec_pos() == old(self).spec_pos(),
                self.spec_chunk_size() == old(self).spec_chunk_size(),
                self.spec_out_l() == old(self).spec_out_l(),
                self.spec_out_r() == old(self).spec_out_r(),
                self.spec_buffer_l() == old(self).spec_buffer_l(),
                self.spec_buffer_r() == old(self).spec_buffer_r(),
                self.spec_devices() == old(self).spec_devices(),
                self.spec_data_blocks() == old(self).spec_data_blocks(),
                forall|k: int|
                    0 <= k < i ==> #[trigger] Self::spec_s16_pair_ok(
                        self.spec_out_s16le(),
                        old(self).spec_out_l(),
                        old(self).spec_out_r(),
                        k,
                    ),
            decreases n - i,
        {
            let s16_len = self.output_sampling_s16le.len();
            assert(i * 2 + 1 < s16_len);
            let ghost pre_s16 = self.spec_out_s16le();
            let left = convert_sample_to_s16(self.output_sampling_l[i]);
            let right = convert_sample_to_s16(self.output_sampling_r[i]);
            self.output_sampling_s16le.set(i * 2, left);
            self.output_sampling_s16le.set(i * 2 + 1, right);
            proof {
                assert forall|k: int|
                    0 <= k < i + 1 implies #[trigger] Self::spec_s16_pair_ok(
                    self.spec_out_s16le(),
                    old(self).spec_out_l(),
                    old(self).spec_out_r(),
                    k,
                ) by {
                    if k < i {
                        assert(Self::spec_s16_pair_ok(
                            pre_s16,
                            old(self).spec_out_l(),
                            old(self).spec_out_r(),
                            k,
                        ));
                        assert(self.spec_out_s16le()[2 * k] == pre_s16[2 * k]);
                        assert(self.spec_out_s16le()[2 * k + 1] == pre_s16[2 * k + 1]);
                    } else {
                        assert(self.spec_out_s16le()[2 * k] == left);
                        assert(self.spec_out_s16le()[2 * k + 1] == right);
                    }
                }
            }
            i = i + 1;
        }
        &self.output_sampling_s16le
    }

    /// Build a fresh interleaved 16-bit PCM copy of the current chunk,
    /// each sample clamped to the 16-bit range (for host boundaries that
    /// want an owned buffer).
    pub fn get_output_sampling_s16le(&self) -> (r: Vec<i16>)
        requires
            self.wf(),
        ensures
            r@.len() == 2 * self.spec_chunk_size(),
            forall|k: int|
                0 <= k < self.spec_chunk_size() ==> #[trigger] Self::spec_s16_pair_ok(
                    r@,
                    self.spec_out_l(),
                    self.spec_out_r(),
                    k,
                ),
    {
        let n = self.output_sample_chunk_size;
        let mut out: Vec<i16> = Vec::new();
        let mut i: usize = 0;
        while i < n
            invariant
                i <= n,
                n == self.spec_chunk_size(),
                self.wf(),
                out@.len() == 2 * i,
                forall|k: int|
                    0 <= k < i ==> #[trigger] Self::spec_s16_pair_ok(
                        out@,
                        self.spec_out_l(),
                        self.spec_out_r(),
                        k,
                    ),
            decreases n - i,
        {
            let ghost pre_out = out@;
            let left = convert_sample_to_s16(self.output_sampling_l[i]);
            let right = convert_sample_to_s16(self.output_sampling_r[i]);
            out.push(left);
            out.push(right);
            proof {
                assert forall|k: int|
                    0 <= k < i + 1 implies #[trigger] Self::spec_s16_pair_ok(
                    out@,
                    self.spec_out_l(),
                    self.spec_out_r(),
                    k,
                ) by {
                    if k < i {
                        assert(Self::spec_s16_pair_ok(
                            pre_out,
                            self.spec_out_l(),
                            self.spec_out_r(),
                            k,
                        ));
                        assert(out@[2 * k] == pre_out[2 * k]);
                        assert(out@[2 * k + 1] == pre_out[2 * k + 1]);
                    } else {
                        assert(out@[2 * k] == left);
                        assert(out@[2 * k + 1] == right);
                    }
                }
            }
            i = i + 1;
        }
        out
    }

    /// Whether everything except the device table — rates, phase, chunk
    /// configuration, buffers and data blocks — is unchanged.
    pub open spec fn same_host_state(pre: SoundSlot<C>, post: SoundSlot<C>) -> bool {
        &&& post.spec_tick_rate() == pre.spec_tick_rate()
        &&& post.spec_output_rate() == pre.spec_output_rate()
        &&& post.spec_pos() == pre.spec_pos()
        &&& post.spec_chunk_size() == pre.spec_chunk_size()
        &&& post.spec_out_l() == pre.spec_out_l()
        &&& post.spec_out_r() == pre.spec_out_r()
        &&& post.spec_out_s16le() == pre.spec_out_s16le()
        &&& post.spec_buffer_l() == pre.spec_buffer_l()
        &&& post.spec_buffer_r() == pre.spec_buffer_r()
        &&& post.spec_data_blocks() == pre.spec_data_blocks()
    }

    /// Whether a routed call touched at most the addressed device: keys,
    /// group sizes and every other device are as they were.
    pub open spec fn routed_update(
        pre: SoundSlot<C>,
        post: SoundSlot<C>,
        sound_chip_type: SoundChipType,
        index: int,
    ) -> bool {
        let code = spec_chip_type_code(sound_chip_type);
        &&& post.spec_devices()@.len() == pre.spec_devices()@.len()
        &&& forall|k: usize| #[trigger]
            post.spec_devices().spec_contains(k) == pre.spec_devices().spec_contains(k)
        &&& forall|k: usize|
            k != code && pre.spec_devices().spec_contains(k) ==> #[trigger] post.spec_devices().spec_at(k)
                == pre.spec_devices().spec_at(k)
        &&& pre.spec_devices().spec_contains(code) ==> {
            &&& post.spec_devices().spec_at(code)@.len() == pre.spec_devices().spec_at(code)@.len()
            &&& forall|d: int|
                0 <= d < pre.spec_devices().spec_at(code)@.len() && d != index
                    ==> #[trigger] post.spec_devices().spec_at(code)@[d]
                    == pre.spec_devices().spec_at(code)@[d]
        }
    }

    /// Route one register write to the addressed device; a missing
    /// device is a silent no-op that changes nothing at all.
    pub fn write(
        &mut self,
        sound_chip_type: SoundChipType,
        sound_chip_index: usize,
        port: u32,
        data: u32,
    )
        requires
            old(self).wf(),
        ensures
            final(self).wf(),
            Self::same_host_state(*old(self), *final(self)),
            !old(self).spec_has_device(sound_chip_type, sound_chip_index as int) ==> *final(self)
                == *old(self),
            old(self).spec_has_device(sound_chip_type, sound_chip_index as int) ==> {
                let pre_d = old(self).spec_device(sound_chip_type, sound_chip_index as int);
                let post_d = final(self).spec_device(sound_chip_type, sound_chip_index as int);
                &&& Self::routed_update(*old(self), *final(self), sound_chip_type, sound_chip_index as int)
                &&& post_d.spec_level() == pre_d.spec_level()
                &&& post_d.spec_mode() == pre_d.spec_mode()
                &&& post_d.spec_rom_bank() == pre_d.spec_rom_bank()
                &&& post_d.spec_streams() == pre_d.spec_streams()
                &&& (post_d.spec_stream() == pre_d.spec_stream() || (exists|rate: u32|
                    post_d.spec_stream() == #[trigger] pre_d.spec_stream().spec_retuned(rate)))
                &&& spec_same_kind_and_phase(pre_d.spec_stream(), post_d.spec_stream())
                &&& post_d.spec_stream().ticks_owed() == pre_d.spec_stream().ticks_owed()
                &&& post_d.spec_stream().drained() == pre_d.spec_stream().drained()
            },
    {
        match self.find_sound_device(sound_chip_type, sound_chip_index) {
            Some(g) => {
                let ghost pre_table = self.sound_device;
                let group = self.sound_device.value_at_mut(g);
                let device = &mut group[sound_chip_index];
                device.write(sound_chip_index, port, data);
                proof {
                    lemma_route_update(
                        pre_table,
                        self.sound_device,
                        g as int,
                        sound_chip_index as int,
                        spec_chip_type_code(sound_chip_type),
                    );
                }
            },
            None => {
            },
        }
    }

    /// Route a gain change to the addressed device; a missing device is
    /// a silent no-op. The channel argument is accepted for interface
    /// compatibility; the rate applies to both channels.
    pub fn set_output_level_rate(
        &mut self,
        sound_chip_type: SoundChipType,
        sound_chip_index: usize,
        channel: usize,
        output_level_rate: u32,
    )
        requires
            old(self).wf(),
        ensures
            final(self).wf(),
            Self::same_host_state(*old(self), *final(self)),
            !old(self).spec_has_device(sound_chip_type, sound_chip_index as int) ==> *final(self)
                == *old(self),
            old(self).spec_has_device(sound_chip_type, sound_chip_index as int) ==> {
                let pre_d = old(self).spec_device(sound_chip_type, sound_chip_index as int);
                let post_d = final(self).spec_device(sound_chip_type, sound_chip_index as int);
                &&& Self::routed_update(*old(self), *final(self), sound_chip_type, sound_chip_index as int)
                &&& post_d.spec_level() == output_level_rate
                &&& post_d.spec_stream() == pre_d.spec_stream()
                &&& post_d.spec_mode() == pre_d.spec_mode()
                &&& post_d.spec_rom_bank() == pre_d.spec_rom_bank()
                &&& post_d.spec_streams() == pre_d.spec_streams()
            },
    {
        match self.find_sound_device(sound_chip_type, sound_chip_index) {
            Some(g) => {
                let ghost pre_table = self.sound_device;
                let group = self.sound_device.value_at_mut(g);
                let device = &mut group[sound_chip_index];
                device.set_output_level_rate(channel, output_level_rate);
                proof {
                    lemma_route_update(
                        pre_table,
                        self.sound_device,
                        g as int,
                        sound_chip_index as int,
                        spec_chip_type_code(sound_chip_type),
                    );
                }
            },
            None => {
            },
        }
    }

    /// Route a ROM range append to the addressed device; the chip learns
    /// the assigned range index. A missing device is a silent no-op.
    pub fn add_rom(
        &mut self,
        sound_chip_type: SoundChipType,
        sound_chip_index: usize,
        rom_index: RomIndex,
        memory: &[u8],
        start_address: usize,
        end_address: usize,
    )
        requires
            old(self).wf(),
        ensures
            final(self).wf(),
            Self::same_host_state(*old(self), *final(self)),
            !old(self).spec_has_device(sound_chip_type, sound_chip_index as int) ==> *final(self)
                == *old(self),
            old(self).spec_has_device(sound_chip_type, sound_chip_index as int) ==> {
                let pre_d = old(self).spec_device(sound_chip_type, sound_chip_index as int);
                let post_d = final(self).spec_device(sound_chip_type, sound_chip_index as int);
                &&& Self::routed_update(*old(self), *final(self), sound_chip_type, sound_chip_index as int)
                &&& post_d.spec_stream() == pre_d.spec_stream()
                &&& post_d.spec_level() == pre_d.spec_level()
                &&& post_d.spec_mode() == pre_d.spec_mode()
                &&& post_d.spec_streams() == pre_d.spec_streams()
                &&& !pre_d.spec_rom_bank().spec_contains(rom_index) ==> post_d.spec_rom_bank()
                    == pre_d.spec_rom_bank()
                &&& pre_d.spec_rom_bank().spec_contains(rom_index) ==> {
                    let pre_blocks = pre_d.spec_rom_bank().spec_set(rom_index)@;
                    let post_blocks = post_d.spec_rom_bank().spec_set(rom_index)@;
                    &&& post_blocks.len() == pre_blocks.len() + 1
                    &&& (forall|b: int| 0 <= b < pre_blocks.len() ==> post_blocks[b] == pre_blocks[b])
                    &&& post_blocks[pre_blocks.len() as int].start_address == start_address
                    &&& post_blocks[pre_blocks.len() as int].end_address == end_address
                    &&& post_blocks[pre_blocks.len() as int].data@ == memory@
                }
            },
    {
        match self.find_sound_device(sound_chip_type, sound_chip_index) {
            Some(g) => {
                let ghost pre_table = self.sound_device;
                let group = self.sound_device.value_at_mut(g);
                let device = &mut group[sound_chip_index];
                device.add_rom(rom_index, memory, start_address, end_address);
                proof {
                    lemma_route_update(
                        pre_table,
                        self.sound_device,
                        g as int,
                        sound_chip_index as int,
                        spec_chip_type_code(sound_chip_type),
                    );
                }
            },
            None => {
            },
        }
    }

    /// Route a ROM bus selection to the addressed device's chip; a
    /// missing device is a silent no-op. The ROM index argument is
    /// accepted for interface compatibility.
    pub fn set_rom_bus_type(
        &mut self,
        sound_chip_type: SoundChipType,
        sound_chip_index: usize,
        _rom_index: RomIndex,
        rom_bus_type: Option<RomBusType>,
    )
        requires
            old(self).wf(),
        ensures
            final(self).wf(),
            Self::same_host_state(*old(self), *final(self)),
            !old(self).spec_has_device(sound_chip_type, sound_chip_index as int) ==> *final(self)
                == *old(self),
            old(self).spec_has_device(sound_chip_type, sound_chip_index as int) ==> {
                let pre_d = old(self).spec_device(sound_chip_type, sound_chip_index as int);
                let post_d = final(self).spec_device(sound_chip_type, sound_chip_index as int);
                &&& Self::routed_update(*old(self), *final(self), sound_chip_type, sound_chip_index as int)
                &&& post_d.spec_stream() == pre_d.spec_stream()
                &&& post_d.spec_level() == pre_d.spec_level()
                &&& post_d.spec_mode() == pre_d.spec_mode()
                &&& post_d.spec_rom_bank() == pre_d.spec_rom_bank()
                &&& post_d.spec_streams() == pre_d.spec_streams()
            },
    {
        match self.find_sound_device(sound_chip_type, sound_chip_index) {
            Some(g) => {
                let ghost pre_table = self.sound_device;
                let group = self.sound_device.value_at_mut(g);
                let device = &mut group[sound_chip_index];
                device.set_rom_bus_type(rom_bus_type);
                proof {
                    lemma_route_update(
                        pre_table,
                        self.sound_device,
                        g as int,
                        sound_chip_index as int,
                        spec_chip_type_code(sound_chip_type),
                    );
                }
            },
            None => {
            },
        }
    }

    /// Store (or replace) a data block under `data_block_id`.
    pub fn add_data_block(&mut self, data_block_id: usize, data_block: &[u8])
        requires
            old(self).wf(),
        ensures
            final(self).wf(),
            final(self).spec_tick_rate() == old(self).spec_tick_rate(),
            final(self).spec_output_rate() == old(self).spec_output_rate(),
            final(self).spec_pos() == old(self).spec_pos(),
            final(self).spec_chunk_size() == old(self).spec_chunk_size(),
            final(self).spec_out_l() == old(self).spec_out_l(),
            final(self).spec_out_r() == old(self).spec_out_r(),
            final(self).spec_out_s16le() == old(self).spec_out_s16le(),
            final(self).spec_buffer_l() == old(self).spec_buffer_l(),
            final(self).spec_buffer_r() == old(self).spec_buffer_r(),
            final(self).spec_devices() == old(self).spec_devices(),
            final(self).spec_data_blocks().spec_contains(data_block_id),
            final(self).spec_data_blocks().spec_at(data_block_id)@ == data_block@,
            forall|k: usize|
                k != data_block_id ==> #[trigger] final(self).spec_data_blocks().spec_contains(k)
                    == old(self).spec_data_blocks().spec_contains(k) && (old(self).spec_data_blocks().spec_contains(k) ==> final(self).spec_data_blocks().spec_at(k)
                    == old(self).spec_data_blocks().spec_at(k)),
    {
        self.data_block.insert(data_block_id, DataBlock::new(data_block));
    }

    /// Borrow the bytes of a stored data block; `None` surfaces a
    /// missing id (a read has no sensible silent default).
    pub fn get_data_block(&self, data_block_id: usize) -> (r: Option<&[u8]>)
        ensures
            self.spec_data_blocks().spec_contains(data_block_id) ==> (r matches Some(bytes)
                && bytes@ == self.spec_data_blocks().spec_at(data_block_id)@),
            !self.spec_data_blocks().spec_contains(data_block_id) ==> r is None,
    {
        match self.data_block.get(data_block_id) {
            Some(block) => Some(block.get_data_block()),
            None => None,
        }
    }

    /// Route the creation of a data stream aimed at a port/register pair;
    /// a missing device is a silent no-op.
    pub fn add_data_stream(
        &mut self,
        sound_chip_type: SoundChipType,
        sound_chip_index: usize,
        data_stream_id: usize,
        write_port: u32,
        write_reg: u32,
    )
        requires
            old(self).wf(),
        ensures
            final(self).wf(),
            Self::same_host_state(*old(self), *final(self)),
            !old(self).spec_has_device(sound_chip_type, sound_chip_index as int) ==> *final(self)
                == *old(self),
            old(self).spec_has_device(sound_chip_type, sound_chip_index as int) ==> {
                let pre_d = old(self).spec_device(sound_chip_type, sound_chip_index as int);
                let post_d = final(self).spec_device(sound_chip_type, sound_chip_index as int);
                &&& Self::routed_update(*old(self), *final(self), sound_chip_type, sound_chip_index as int)
                &&& post_d.spec_stream() == pre_d.spec_stream()
                &&& post_d.spec_level() == pre_d.spec_level()
                &&& post_d.spec_rom_bank() == pre_d.spec_rom_bank()
                &&& post_d.spec_mode() == pre_d.spec_mode()
                &&& post_d.spec_streams().spec_contains(data_stream_id)
                &&& post_d.spec_streams().spec_at(data_stream_id)@ == (DataStreamView {
                    write_port,
                    write_reg,
                    sampling_rate: 0u32,
                    frequency: 0u32,
                    pace: 0u32,
                    data_block_id: 0usize,
                    pos: 0usize,
                    remain: 0usize,
                    playing: false,
                })
                &&& (forall|k: usize|
                    k != data_stream_id ==> #[trigger] post_d.spec_streams().spec_contains(k)
                        == pre_d.spec_streams().spec_contains(k) && (
                    pre_d.spec_streams().spec_contains(k) ==> post_d.spec_streams().spec_at(k)
                        == pre_d.spec_streams().spec_at(k)))
            },
    {
        match self.find_sound_device(sound_chip_type, sound_chip_index) {
            Some(g) => {
                let ghost pre_table = self.sound_device;
                let group = self.sound_device.value_at_mut(g);
                let device = &mut group[sound_chip_index];
                device.add_data_stream(data_stream_id, DataStream::new(write_port, write_reg));
                proof {
                    lemma_route_update(
                        pre_table,
                        self.sound_device,
                        g as int,
                        sound_chip_index as int,
                        spec_chip_type_code(sound_chip_type),
                    );
                }
            },
            None => {
            },
        }
    }

    /// Route a merge-mode change to the addressed device; a missing
    /// device is a silent no-op.
    pub fn set_data_stream_mode(
        &mut self,
        sound_chip_type: SoundChipType,
        sound_chip_index: usize,
        data_stream_mode: DataStreamMode,
    )
        requires
            old(self).wf(),
        ensures
            final(self).wf(),
            Self::same_host_state(*old(self), *final(self)),
            !old(self).spec_has_device(sound_chip_type, sound_chip_index as int) ==> *final(self)
                == *old(self),
            old(self).spec_has_device(sound_chip_type, sound_chip_index as int) ==> {
                let pre_d = old(self).spec_device(sound_chip_type, sound_chip_index as int);
                let post_d = final(self).spec_device(sound_chip_type, sound_chip_index as int);
                &&& Self::routed_update(*old(self), *final(self), sound_chip_type, sound_chip_index as int)
                &&& post_d.spec_mode() == data_stream_mode
                &&& post_d.spec_stream() == pre_d.spec_stream()
                &&& post_d.spec_level() == pre_d.spec_level()
                &&& post_d.spec_rom_bank() == pre_d.spec_rom_bank()
                &&& post_d.spec_streams() == pre_d.spec_streams()
            },
    {
        match self.find_sound_device(sound_chip_type, sound_chip_index) {
            Some(g) => {
                let ghost pre_table = self.sound_device;
                let group = self.sound_device.value_at_mut(g);
                let device = &mut group[sound_chip_index];
                device.set_data_stream_mode(data_stream_mode);
                proof {
                    lemma_route_update(
                        pre_table,
                        self.sound_device,
                        g as int,
                        sound_chip_index as int,
                        spec_chip_type_code(sound_chip_type),
                    );
                }
            },
            None => {
            },
        }
    }

    /// Route a delivery-frequency change to one data stream; a missing
    /// device or stream id is a silent no-op.
    pub fn set_data_stream_frequency(
        &mut self,
        sound_chip_type: SoundChipType,
        sound_chip_index: usize,
        data_stream_id: usize,
        frequency: u32,
    )
        requires
            old(self).wf(),
        ensures
            final(self).wf(),
            Self::same_host_state(*old(self), *final(self)),
            !old(self).spec_has_device(sound_chip_type, sound_chip_index as int) ==> *final(self)
                == *old(self),
            old(self).spec_has_device(sound_chip_type, sound_chip_index as int) ==> {
                let pre_d = old(self).spec_device(sound_chip_type, sound_chip_index as int);
                let post_d = final(self).spec_device(sound_chip_type, sound_chip_index as int);
                &&& Self::routed_update(*old(self), *final(self), sound_chip_type, sound_chip_index as int)
                &&& post_d.spec_stream() == pre_d.spec_stream()
                &&& post_d.spec_level() == pre_d.spec_level()
                &&& post_d.spec_rom_bank() == pre_d.spec_rom_bank()
                &&& post_d.spec_mode() == pre_d.spec_mode()
                &&& (forall|k: usize| #[trigger] post_d.spec_streams().spec_contains(k)
                    == pre_d.spec_streams().spec_contains(k))
                &&& (forall|k: usize|
                    k != data_stream_id && pre_d.spec_streams().spec_contains(k)
                        ==> #[trigger] post_d.spec_streams().spec_at(k)
                        == pre_d.spec_streams().spec_at(k))
                &&& pre_d.spec_streams().spec_contains(data_stream_id)
                    ==> post_d.spec_streams().spec_at(data_stream_id)@ == (DataStreamView {
                    sampling_rate: pre_d.spec_stream().spec_sampling_rate(),
                    frequency,
                    ..pre_d.spec_streams().spec_at(data_stream_id)@
                })
            },
    {
        match self.find_sound_device(sound_chip_type, sound_chip_index) {
            Some(g) => {
                let ghost pre_table = self.sound_device;
                let group = self.sound_device.value_at_mut(g);
                let device = &mut group[sound_chip_index];
                device.set_data_stream_frequency(data_stream_id, frequency);
                proof {
                    lemma_route_update(
                        pre_table,
                        self.sound_device,
                        g as int,
                        sound_chip_index as int,
                        spec_chip_type_code(sound_chip_type),
                    );
                }
            },
            None => {
            },
        }
    }

    /// Route a block attachment to one data stream; a missing device or
    /// stream id is a silent no-op.
    pub fn attach_data_block_to_stream(
        &mut self,
        sound_chip_type: SoundChipType,
        sound_chip_index: usize,
        data_stream_id: usize,
        data_block_id: usize,
    )
        requires
            old(self).wf(),
        ensures
            final(self).wf(),
            Self::same_host_state(*old(self), *final(self)),
            !old(self).spec_has_device(sound_chip_type, sound_chip_index as int) ==> *final(self)
                == *old(self),
            old(self).spec_has_device(sound_chip_type, sound_chip_index as int) ==> {
                let pre_d = old(self).spec_device(sound_chip_type, sound_chip_index as int);
                let post_d = final(self).spec_device(sound_chip_type, sound_chip_index as int);
                &&& Self::routed_update(*old(self), *final(self), sound_chip_type, sound_chip_index as int)
                &&& post_d.spec_stream() == pre_d.spec_stream()
                &&& post_d.spec_level() == pre_d.spec_level()
                &&& post_d.spec_rom_bank() == pre_d.spec_rom_bank()
                &&& post_d.spec_mode() == pre_d.spec_mode()
                &&& (forall|k: usize| #[trigger] post_d.spec_streams().spec_contains(k)
                    == pre_d.spec_streams().spec_contains(k))
                &&& (forall|k: usize|
                    k != data_stream_id && pre_d.spec_streams().spec_contains(k)
                        ==> #[trigger] post_d.spec_streams().spec_at(k)
                        == pre_d.spec_streams().spec_at(k))
                &&& pre_d.spec_streams().spec_contains(data_stream_id)
                    ==> post_d.spec_streams().spec_at(data_stream_id)@ == (DataStreamView {
                    data_block_id,
                    ..pre_d.spec_streams().spec_at(data_stream_id)@
                })
            },
    {
        match self.find_sound_device(sound_chip_type, sound_chip_index) {
            Some(g) => {
                let ghost pre_table = self.sound_device;
                let group = self.sound_device.value_at_mut(g);
                let device = &mut group[sound_chip_index];
                device.attach_data_block_to_stream(data_stream_id, data_block_id);
                proof {
                    lemma_route_update(
                        pre_table,
                        self.sound_device,
                        g as int,
                        sound_chip_index as int,
                        spec_chip_type_code(sound_chip_type),
                    );
                }
            },
            None => {
            },
        }
    }

    /// Route an explicit stream start (offset and length) to one data
    /// stream; a missing device or stream id is a silent no-op.
    pub fn start_data_stream(
        &mut self,
        sound_chip_type: SoundChipType,
        sound_chip_index: usize,
        data_stream_id: usize,
        data_block_start_offset: usize,
        data_block_length: usize,
    )
        requires
            old(self).wf(),
        ensures
            final(self).wf(),
            Self::same_host_state(*old(self), *final(self)),
            !old(self).spec_has_device(sound_chip_type, sound_chip_index as int) ==> *final(self)
                == *old(self),
            old(self).spec_has_device(sound_chip_type, sound_chip_index as int) ==> {
                let pre_d = old(self).spec_device(sound_chip_type, sound_chip_index as int);
                let post_d = final(self).spec_device(sound_chip_type, sound_chip_index as int);
                &&& Self::routed_update(*old(self), *final(self), sound_chip_type, sound_chip_index as int)
                &&& post_d.spec_stream() == pre_d.spec_stream()
                &&& post_d.spec_level() == pre_d.spec_level()
                &&& post_d.spec_rom_bank() == pre_d.spec_rom_bank()
                &&& post_d.spec_mode() == pre_d.spec_mode()
                &&& (forall|k: usize| #[trigger] post_d.spec_streams().spec_contains(k)
                    == pre_d.spec_streams().spec_contains(k))
                &&& (forall|k: usize|
                    k != data_stream_id && pre_d.spec_streams().spec_contains(k)
                        ==> #[trigger] post_d.spec_streams().spec_at(k)
                        == pre_d.spec_streams().spec_at(k))
                &&& pre_d.spec_streams().spec_contains(data_stream_id)
                    ==> post_d.spec_streams().spec_at(data_stream_id)@ == (DataStreamView {
                    pos: data_block_start_offset,
                    remain: data_block_length,
                    pace: 0u32,
                    playing: true,
                    ..pre_d.spec_streams().spec_at(data_stream_id)@
                })
            },
    {
        match self.find_sound_device(sound_chip_type, sound_chip_index) {
            Some(g) => {
                let ghost pre_table = self.sound_device;
                let group = self.sound_device.value_at_mut(g);
                let device = &mut group[sound_chip_index];
                device.start_data_stream(data_stream_id, data_block_start_offset, data_block_length);
                proof {
                    lemma_route_update(
                        pre_table,
                        self.sound_device,
                        g as int,
                        sound_chip_index as int,
                        spec_chip_type_code(sound_chip_type),
                    );
                }
            },
            None => {
            },
        }
    }

    /// Route a stream stop to one data stream; a missing device or
    /// stream id is a silent no-op.
    pub fn stop_data_stream(
        &mut self,
        sound_chip_type: SoundChipType,
        sound_chip_index: usize,
        data_stream_id: usize,
    )
        requires
            old(self).wf(),
        ensures
            final(self).wf(),
            Self::same_host_state(*old(self), *final(self)),
            !old(self).spec_has_device(sound_chip_type, sound_chip_index as int) ==> *final(self)
                == *old(self),
            old(self).spec_has_device(sound_chip_type, sound_chip_index as int) ==> {
                let pre_d = old(self).spec_device(sound_chip_type, sound_chip_index as int);
                let post_d = final(self).spec_device(sound_chip_type, sound_chip_index as int);
                &&& Self::routed_update(*old(self), *final(self), sound_chip_type, sound_chip_index as int)
                &&& post_d.spec_stream() == pre_d.spec_stream()
                &&& post_d.spec_level() == pre_d.spec_level()
                &&& post_d.spec_rom_bank() == pre_d.spec_rom_bank()
                &&& post_d.spec_mode() == pre_d.spec_mode()
                &&& (forall|k: usize| #[trigger] post_d.spec_streams().spec_contains(k)
                    == pre_d.spec_streams().spec_contains(k))
                &&& (forall|k: usize|
                    k != data_stream_id && pre_d.spec_streams().spec_contains(k)
                        ==> #[trigger] post_d.spec_streams().spec_at(k)
                        == pre_d.spec_streams().spec_at(k))
                &&& pre_d.spec_streams().spec_contains(data_stream_id)
                    ==> post_d.spec_streams().spec_at(data_stream_id)@ == (DataStreamView {
                    playing: false,
                    ..pre_d.spec_streams().spec_at(data_stream_id)@
                })
            },
    {
        match self.find_sound_device(sound_chip_type, sound_chip_index) {
            Some(g) => {
                let ghost pre_table = self.sound_device;
                let group = self.sound_device.value_at_mut(g);
                let device = &mut group[sound_chip_index];
                device.stop_data_stream(data_stream_id);
                proof {
                    lemma_route_update(
                        pre_table,
                        self.sound_device,
                        g as int,
                        sound_chip_index as int,
                        spec_chip_type_code(sound_chip_type),
                    );
                }
            },
            None => {
            },
        }
    }

    /// Route a fast stream start: attach the named block and play it
    /// from the beginning over its full length. A missing device, block
    /// or stream id is a silent no-op.
    pub fn start_data_stream_fast(
        &mut self,
        sound_chip_type: SoundChipType,
        sound_chip_index: usize,
        data_stream_id: usize,
        data_block_id: usize,
    )
        requires
            old(self).wf(),
        ensures
            final(self).wf(),
            Self::same_host_state(*old(self), *final(self)),
            !old(self).spec_has_device(sound_chip_type, sound_chip_index as int) || !old(self).spec_data_blocks().spec_contains(data_block_id) ==> *final(self) == *old(self),
            old(self).spec_has_device(sound_chip_type, sound_chip_index as int) && old(self).spec_data_blocks().spec_contains(data_block_id) ==> {
                let pre_d = old(self).spec_device(sound_chip_type, sound_chip_index as int);
                let post_d = final(self).spec_device(sound_chip_type, sound_chip_index as int);
                &&& Self::routed_update(*old(self), *final(self), sound_chip_type, sound_chip_index as int)
                &&& post_d.spec_stream() == pre_d.spec_stream()
                &&& post_d.spec_level() == pre_d.spec_level()
                &&& post_d.spec_rom_bank() == pre_d.spec_rom_bank()
                &&& post_d.spec_mode() == pre_d.spec_mode()
                &&& (forall|k: usize| #[trigger] post_d.spec_streams().spec_contains(k)
                    == pre_d.spec_streams().spec_contains(k))
                &&& (forall|k: usize|
                    k != data_stream_id && pre_d.spec_streams().spec_contains(k)
                        ==> #[trigger] post_d.spec_streams().spec_at(k)
                        == pre_d.spec_streams().spec_at(k))
                &&& pre_d.spec_streams().spec_contains(data_stream_id)
                    ==> post_d.spec_streams().spec_at(data_stream_id)@ == (DataStreamView {
                    data_block_id,
                    pos: 0usize,
                    remain: old(self).spec_data_blocks().spec_at(data_block_id)@.len() as usize,
                    pace: 0u32,
                    playing: true,
                    ..pre_d.spec_streams().spec_at(data_stream_id)@
                })
            },
    {
        let mut data_block_length: Option<usize> = None;
        match self.data_block.get(data_block_id) {
            Some(block) => {
                data_block_length = Some(block.len());
            },
            None => {
            },
        }
        match self.find_sound_device(sound_chip_type, sound_chip_index) {
            Some(g) => {
                match data_block_length {
                    Some(length) => {
                        let ghost pre_table = self.sound_device;
                        let group = self.sound_device.value_at_mut(g);
                        let device = &mut group[sound_chip_index];
                        device.start_data_stream_fast(data_stream_id, data_block_id, length);
                        proof {
                            lemma_route_update(
                                pre_table,
                                self.sound_device,
                                g as int,
                                sound_chip_index as int,
                                spec_chip_type_code(sound_chip_type),
                            );
                        }
                    },
                    None => {
                    },
                }
            },
            None => {
            },
        }
    }

    /// Whether one data stream is stopped; a missing device or stream id
    /// reads as stopped. No side effects.
    pub fn is_stop_data_stream(
        &mut self,
        sound_chip_type: SoundChipType,
        sound_chip_index: usize,
        data_stream_id: usize,
    ) -> (r: bool)
        ensures
            *final(self) == *old(self),
            !old(self).spec_has_device(sound_chip_type, sound_chip_index as int) ==> r == true,
            old(self).spec_has_device(sound_chip_type, sound_chip_index as int) ==> r == {
                let d = old(self).spec_device(sound_chip_type, sound_chip_index as int);
                if d.spec_streams().spec_contains(data_stream_id) {
                    let v = d.spec_streams().spec_at(data_stream_id)@;
                    !v.playing || v.remain == 0
                } else {
                    true
                }
            },
    {
        match self.find_sound_device(sound_chip_type, sound_chip_index) {
            Some(g) => {
                let group = self.sound_device.value_at(g);
                let device = &group[sound_chip_index];
                device.is_stop_data_stream(data_stream_id)
            },
            None => true,
        }
    }

    /// Whether a freshly built device carries the defaults a new chip
    /// instance starts with: unit gain, parallel streams, no data
    /// streams yet, exactly the chip type's ROM regions registered and
    /// all of them still empty (so appended ranges are numbered from
    /// zero), and a resampling strategy chosen by the fixed
    /// per-chip-type policy for its stored native rate.
    pub open spec fn spec_fresh_device(
        device: SoundDevice<C>,
        sound_chip_type: SoundChipType,
        output_rate: u32,
    ) -> bool {
        let native = device.spec_stream().spec_sampling_rate();
        &&& device.wf()
        &&& device.spec_level() == crate::sample::LEVEL_RATE_ONE
        &&& device.spec_mode() == DataStreamMode::Parallel
        &&& device.spec_streams()@.len() == 0
        &&& forall|j: int|
            0 <= j < spec_default_rom_indexes(sound_chip_type).len()
                ==> device.spec_rom_bank().spec_contains(
                #[trigger] spec_default_rom_indexes(sound_chip_type)[j],
            )
        &&& forall|ri: RomIndex| #[trigger]
            device.spec_rom_bank().spec_contains(ri) ==> spec_default_rom_indexes(
                sound_chip_type,
            ).contains(ri)
        &&& forall|ri: RomIndex| #[trigger]
            device.spec_rom_bank().spec_contains(ri) ==> device.spec_rom_bank().spec_set(
                ri,
            )@.len() == 0
        &&& native >= 1
        &&& (native == output_rate ==> device.spec_stream() is Native)
        &&& (native > output_rate ==> if sound_chip_type == SoundChipType::SEGAPSG
            || sound_chip_type == SoundChipType::SN76489 || sound_chip_type == SoundChipType::PWM {
            device.spec_stream() is OverSample
        } else {
            device.spec_stream() is NearestDown
        })
        &&& (native < output_rate ==> if sound_chip_type == SoundChipType::OKIM6258 {
            device.spec_stream() is SampleHold
        } else {
            device.spec_stream() is LinearUp
        })
    }

    /// The number of instances of one chip type.
    pub open spec fn spec_device_count(&self, sound_chip_type: SoundChipType) -> nat {
        if self.spec_devices().spec_contains(spec_chip_type_code(sound_chip_type)) {
            self.spec_devices().spec_at(spec_chip_type_code(sound_chip_type))@.len()
        } else {
            0nat
        }
    }

    /// Create and initialize `number_of` chip instances of one type.
    ///
    /// Each instance is initialized for `clock`, its resampling strategy
    /// is chosen by comparing its native rate against the output rate
    /// (see [`select_sound_stream`]), its default ROM regions are
    /// registered, and it is appended to its type's group — instance
    /// indexes are positions in that group, stable for the device's
    /// lifetime. A chip model that reports no native rate is tuned to
    /// one sample per second so the slot stays sound.
    pub fn add_sound_device(&mut self, sound_chip_type: SoundChipType, number_of: usize, clock: u32)
        requires
            old(self).wf(),
        ensures
            final(self).wf(),
            Self::same_host_state(*old(self), *final(self)),
            final(self).spec_device_count(sound_chip_type) == old(self).spec_device_count(
                sound_chip_type,
            ) + number_of,
            forall|k: usize|
                k != spec_chip_type_code(sound_chip_type) ==> #[trigger] final(self).spec_devices().spec_contains(k) == old(self).spec_devices().spec_contains(k) && (
                old(self).spec_devices().spec_contains(k) ==> final(self).spec_devices().spec_at(k)
                    == old(self).spec_devices().spec_at(k)),
            forall|d: int|
                0 <= d < old(self).spec_device_count(sound_chip_type) ==> #[trigger] final(self).spec_device(sound_chip_type, d) == old(self).spec_device(sound_chip_type, d),
            forall|d: int|
                old(self).spec_device_count(sound_chip_type) <= d < final(self).spec_device_count(
                    sound_chip_type,
                ) ==> Self::spec_fresh_device(
                    #[trigger] final(self).spec_device(sound_chip_type, d),
                    sound_chip_type,
                    old(self).spec_output_rate(),
                ),
            number_of == 0 ==> *final(self) == *old(self),
    {
        let code = chip_type_code(sound_chip_type);
        let mut added: usize = 0;
        while added < number_of
            invariant
                added <= number_of,
                self.wf(),
                code == spec_chip_type_code(sound_chip_type),
                Self::same_host_state(*old(self), *self),
                self.spec_device_count(sound_chip_type) == old(self).spec_device_count(
                    sound_chip_type,
                ) + added,
                forall|k: usize|
                    k != code ==> #[trigger] self.spec_devices().spec_contains(k) == old(self).spec_devices().spec_contains(k) && (old(self).spec_devices().spec_contains(k)
                        ==> self.spec_devices().spec_at(k) == old(self).spec_devices().spec_at(k)),
                forall|d: int|
                    0 <= d < old(self).spec_device_count(sound_chip_type) ==> #[trigger] self.spec_device(
                        sound_chip_type,
                        d,
                    ) == old(self).spec_device(sound_chip_type, d),
                forall|d: int|
                    old(self).spec_device_count(sound_chip_type) <= d < self.spec_device_count(
                        sound_chip_type,
                    ) ==> Self::spec_fresh_device(
                        #[trigger] self.spec_device(sound_chip_type, d),
                        sound_chip_type,
                        old(self).spec_output_rate(),
                    ),
                added == 0 ==> *self == *old(self),
            decreases number_of - added,
        {
            let mut sound_chip = C::create(sound_chip_type);
            let reported_rate = sound_chip.init(clock);
            let native_rate: u32 = if reported_rate >= 1 {
                reported_rate
            } else {
                1
            };
            let sound_stream = select_sound_stream(
                sound_chip_type,
                native_rate,
                self.output_sampling_rate,
            );
            let rom_index = default_rom_indexes(sound_chip_type);
            let device = SoundDevice::new(sound_chip, sound_stream, rom_index);
            let ghost pre_slot = *self;
            let ghost pre_table = self.sound_device;
            let ghost dev_ghost = device;
            proof {
                assert(Self::spec_fresh_device(
                    dev_ghost,
                    sound_chip_type,
                    old(self).spec_output_rate(),
                ));
            }
            match self.sound_device.index_of(code) {
                Some(g) => {
                    let group = self.sound_device.value_at_mut(g);
                    let ghost pre_group = group@;
                    group.push(device);
                    proof {
                        lemma_table_find_range(pre_table@, code);
                        lemma_table_update_at_key(pre_table@, self.sound_device@, g as int);
                        assert(self.spec_devices().spec_at(code)@ == pre_group.push(dev_ghost));
                        assert forall|g2: int, d: int|
                            0 <= g2 < self.sound_device@.len() && 0 <= d
                                < self.sound_device@[g2].1@.len() implies (
                        #[trigger] self.sound_device@[g2].1@[d]).wf() by {
                            if g2 == g {
                                if d < pre_group.len() {
                                    assert(self.sound_device@[g2].1@[d] == pre_table@[g2].1@[d]);
                                    assert(pre_table@[g2].1@[d].wf());
                                }
                            } else {
                                assert(self.sound_device@[g2] == pre_table@[g2]);
                                assert(pre_table@[g2].1@[d].wf());
                            }
                        }
                        assert forall|k: usize|
                            k != code implies #[trigger] self.spec_devices().spec_contains(k)
                            == old(self).spec_devices().spec_contains(k) && (old(self).spec_devices().spec_contains(k)
                            ==> self.spec_devices().spec_at(k) == old(self).spec_devices().spec_at(k)) by {
                            assert(self.spec_devices().spec_contains(k) == pre_table.spec_contains(k));
                            assert(pre_table.spec_contains(k) == old(self).spec_devices().spec_contains(k));
                            if pre_table.spec_contains(k) {
                                lemma_table_find_range(pre_table@, k);
                                assert(self.spec_devices().spec_at(k) == pre_table.spec_at(k));
                            }
                        }
                        assert forall|d: int|
                            0 <= d < old(self).spec_device_count(sound_chip_type) implies #[trigger] self.spec_device(
                            sound_chip_type,
                            d,
                        ) == old(self).spec_device(sound_chip_type, d) by {
                            assert(self.spec_devices().spec_at(code)@[d] == pre_group[d]);
                            assert(pre_slot.spec_device(sound_chip_type, d) == pre_group[d]);
                            assert(pre_slot.spec_device(sound_chip_type, d) == old(self).spec_device(
                                sound_chip_type,
                                d,
                            ));
                        }
                        assert forall|d: int|
                            old(self).spec_device_count(sound_chip_type) <= d
                                < self.spec_device_count(sound_chip_type) implies Self::spec_fresh_device(
                            #[trigger] self.spec_device(sound_chip_type, d),
                            sound_chip_type,
                            old(self).spec_output_rate(),
                        ) by {
                            if d < pre_group.len() {
                                assert(self.spec_device(sound_chip_type, d) == pre_group[d]);
                                assert(pre_slot.spec_device(sound_chip_type, d) == pre_group[d]);
                                assert(Self::spec_fresh_device(
                                    pre_slot.spec_device(sound_chip_type, d),
                                    sound_chip_type,
                                    old(self).spec_output_rate(),
                                ));
                            } else {
                                assert(self.spec_device(sound_chip_type, d) == dev_ghost);
                            }
                        }
                    }
                },
                None => {
                    let mut group: Vec<SoundDevice<C>> = Vec::new();
                    group.push(device);
                    let ghost group_ghost = group;
                    self.sound_device.insert(code, group);
                    proof {
                        assert(self.sound_device@ == pre_table@.push((code, group_ghost)));
                        assert forall|g2: int, d: int|
                            0 <= g2 < self.sound_device@.len() && 0 <= d
                                < self.sound_device@[g2].1@.len() implies (
                        #[trigger] self.sound_device@[g2].1@[d]).wf() by {
                            if g2 < pre_table@.len() {
                                assert(self.sound_device@[g2] == pre_table@[g2]);
                                assert(pre_table@[g2].1@[d].wf());
                            } else {
                                assert(self.sound_device@[g2].1@[d] == dev_ghost);
                            }
                        }
                        assert forall|k: usize|
                            k != code implies #[trigger] self.spec_devices().spec_contains(k)
                            == old(self).spec_devices().spec_contains(k) && (old(self).spec_devices().spec_contains(k)
                            ==> self.spec_devices().spec_at(k) == old(self).spec_devices().spec_at(k)) by {
                            lemma_table_find_push(pre_table@, k, (code, group_ghost));
                            assert(self.spec_devices().spec_contains(k) == pre_table.spec_contains(k));
                            assert(pre_table.spec_contains(k) == old(self).spec_devices().spec_contains(k));
                            if pre_table.spec_contains(k) {
                                lemma_table_find_range(pre_table@, k);
                                assert(self.spec_devices().spec_at(k) == pre_table.spec_at(k));
                            }
                        }
                        assert(old(self).spec_device_count(sound_chip_type) + added == 0);
                        assert forall|d: int|
                            old(self).spec_device_count(sound_chip_type) <= d
                                < self.spec_device_count(sound_chip_type) implies Self::spec_fresh_device(
                            #[trigger] self.spec_device(sound_chip_type, d),
                            sound_chip_type,
                            old(self).spec_output_rate(),
                        ) by {
                            assert(self.spec_devices().spec_at(code) == group_ghost);
                            assert(self.spec_device(sound_chip_type, d) == dev_ghost);
                        }
                    }
                },
            }
            added = added + 1;
        }
    }

    /// Find the group index of the device addressed by chip type and
    /// instance index, validating the instance bound.
    fn find_sound_device(&self, sound_chip_type: SoundChipType, sound_chip_index: usize) -> (r:
        Option<usize>)
        ensures
            r matches Some(g) ==> g < self.spec_devices()@.len() && spec_table_find(
                self.spec_devices()@,
                spec_chip_type_code(sound_chip_type),
            ) == Some(g as int) && sound_chip_index < self.spec_devices()@[g as int].1@.len()
                && self.spec_has_device(sound_chip_type, sound_chip_index as int),
            r is None ==> !self.spec_has_device(sound_chip_type, sound_chip_index as int),
    {
        let code = chip_type_code(sound_chip_type);
        match self.sound_device.index_of(code) {
            Some(g) => {
                if sound_chip_index < self.sound_device.value_at(g).len() {
                    Some(g)
                } else {
                    None
                }
            },
            None => None,
        }
    }
}

} // verus!
