//! A sound device: one chip instance bound to its resampling strategy,
//! its ROM regions and its data streams.
//!
//! The device produces one output-domain stereo sample per
//! [`SoundDevice::generate`] call: the strategy decides how many chip
//! ticks are owed, pending data-stream bytes are delivered before each
//! tick, and the drained pair is scaled by the device's output level
//! rate.

use vstd::prelude::*;

use crate::chip::{RomBusType, RomIndex, SoundChip};
use crate::data_stream::{
    lemma_streams_tuning_tick_at, lemma_streams_tuning_trans, merge_rebias, sample_s8,
    streams_tuning_preserved, DataBlock, DataStream, DataStreamView,
};
use crate::rom::RomSetBank;
use crate::sample::{apply_level, spec_apply_level, LEVEL_RATE_ONE};
use crate::stream::{spec_same_kind_and_phase, SoundStream, Tick};
use crate::table::{lemma_table_find_range, lemma_table_update_at_key, Table};

verus! {

/// How concurrent data streams reach the chip: each on its own register,
/// or merged as signed 8-bit PCM onto one register.
#[derive(Clone, Copy, Debug, PartialEq, Eq, Structural)]
pub enum DataStreamMode {
    /// Every stream writes its byte to its own register; last write wins
    /// when two streams target the same register within one tick.
    Parallel,
    /// All bytes are summed as signed 8-bit samples, clamped, rebiased to
    /// unsigned, and written once to the register of the stream that
    /// contributed last.
    MergeS8le,
}

/// Whether one [`SoundDevice::generate`] call can have turned `pre`
/// into `post` and produced `out`: some strategy state of the same kind
/// and cycle position as `pre`'s — reached by paying off the owed chip
/// ticks (and any chip-driven retunes) — was drained into `post`, and
/// `out` is that drained pair scaled by the device's unchanged gain.
pub open spec fn spec_device_emitted<C: SoundChip>(
    pre: SoundDevice<C>,
    post: SoundDevice<C>,
    out: (i32, i32),
) -> bool {
    exists|s: SoundStream|
        {
            &&& s.wf()
            &&& s.ticks_owed() == 0
            &&& spec_same_kind_and_phase(pre.spec_stream(), s)
            &&& post.spec_stream() == #[trigger] s.after_drain()
            &&& post.spec_level() == pre.spec_level()
            &&& out.0 as int == spec_apply_level(s.drained().0 as int, pre.spec_level() as int)
            &&& out.1 as int == spec_apply_level(s.drained().1 as int, pre.spec_level() as int)
        }
}

/// One chip instance with its resampling strategy, gain, ROM regions and
/// data streams.
pub struct SoundDevice<C: SoundChip> {
    sound_chip: C,
    sound_stream: SoundStream,
    output_level_rate: u32,
    sound_rom_set: RomSetBank,
    data_stream_mode: DataStreamMode,
    data_stream: Table<DataStream>,
}

impl<C: SoundChip> SoundDevice<C> {
    /// The resampling strategy with its accumulated state.
    pub closed spec fn spec_stream(&self) -> SoundStream {
        self.sound_stream
    }

    /// The fixed-point output gain rate.
    pub closed spec fn spec_level(&self) -> u32 {
        self.output_level_rate
    }

    /// The data-stream merge mode.
    pub closed spec fn spec_mode(&self) -> DataStreamMode {
        self.data_stream_mode
    }

    /// The device's data streams, keyed by id.
    pub closed spec fn spec_streams(&self) -> Table<DataStream> {
        self.data_stream
    }

    /// The device's ROM regions.
    pub closed spec fn spec_rom_bank(&self) -> RomSetBank {
        self.sound_rom_set
    }

    /// Structural soundness of the resampling state.
    pub open spec fn wf(&self) -> bool {
        self.spec_stream().wf()
    }

    /// Bind a chip instance to its strategy and register its ROM
    /// regions: exactly the listed regions exist afterwards, each of
    /// them still empty — ranges arrive later, one append at a time, so
    /// the first appended range of every region gets index 0.
    pub fn new(sound_chip: C, sound_stream: SoundStream, rom_index: Option<Vec<RomIndex>>) -> (r:
        SoundDevice<C>)
        requires
            sound_stream.wf(),
        ensures
            r.wf(),
            r.spec_stream() == sound_stream,
            r.spec_level() == LEVEL_RATE_ONE,
            r.spec_mode() == DataStreamMode::Parallel,
            r.spec_streams()@.len() == 0,
            rom_index matches Some(list) ==> forall|i: int|
                0 <= i < list@.len() ==> r.spec_rom_bank().spec_contains(#[trigger] list@[i]),
            forall|ri: RomIndex| #[trigger]
                r.spec_rom_bank().spec_contains(ri) ==> (rom_index matches Some(list)
                    && list@.contains(ri)),
            forall|ri: RomIndex| #[trigger]
                r.spec_rom_bank().spec_contains(ri) ==> r.spec_rom_bank().spec_set(ri)@.len() == 0,
    {
        let mut sound_rom_set = RomSetBank::new();
        proof {
            assert forall|ri: RomIndex| !(#[trigger] sound_rom_set.spec_contains(ri)) by {}
        }
        match &rom_index {
            Some(list) => {
                let n = list.len();
                let mut i: usize = 0;
                while i < n
                    invariant
                        i <= n,
                        n == list@.len(),
                        forall|j: int|
                            0 <= j < i ==> sound_rom_set.spec_contains(#[trigger] list@[j]),
                        forall|ri: RomIndex| #[trigger]
                            sound_rom_set.spec_contains(ri) ==> list@.take(i as int).contains(ri),
                        forall|ri: RomIndex| #[trigger]
                            sound_rom_set.spec_contains(ri) ==> sound_rom_set.spec_set(ri)@.len()
                                == 0,
                    decreases n - i,
                {
                    let ghost pre_bank = sound_rom_set;
                    sound_rom_set.register(list[i]);
                    proof {
                        assert forall|ri: RomIndex| #[trigger]
                            sound_rom_set.spec_contains(ri) implies list@.take(
                            i as int + 1,
                        ).contains(ri) by {
                            if pre_bank.spec_contains(ri) {
                                let j = choose|j: int|
                                    0 <= j < i && list@.take(i as int)[j] == ri;
                                assert(list@.take(i as int + 1)[j] == ri);
                            } else {
                                assert(list@.take(i as int + 1)[i as int] == ri);
                            }
                        }
                    }
                    i = i + 1;
                }
                proof {
                    assert(list@.take(n as int) =~= list@);
                }
            },
            None => {
            },
        }
        SoundDevice {
            sound_chip,
            sound_stream,
            output_level_rate: LEVEL_RATE_ONE,
            sound_rom_set,
            data_stream_mode: DataStreamMode::Parallel,
            data_stream: Table::new(),
        }
    }

    /// Deliver pending data-stream bytes to the chip, once per chip tick.
    ///
    /// Every running stream whose pace crosses on this tick reads one
    /// byte out of its attached block (a missing block or an out-of-range
    /// cursor delivers nothing, like a disconnected bus). In `Parallel`
    /// mode each byte goes straight to that stream's register; in
    /// `MergeS8le` mode the bytes are summed as signed 8-bit samples and
    /// written once, clamped and rebiased, to the register of the last
    /// contributor.
    fn write_data_stream(&mut self, sound_chip_index: usize, data_block: &Table<DataBlock>)
        requires
            old(self).wf(),
        ensures
            final(self).wf(),
            final(self).spec_level() == old(self).spec_level(),
            final(self).spec_mode() == old(self).spec_mode(),
            final(self).spec_rom_bank() == old(self).spec_rom_bank(),
            final(self).spec_stream().ticks_owed() == old(self).spec_stream().ticks_owed(),
            final(self).spec_stream().drained() == old(self).spec_stream().drained(),
            spec_same_kind_and_phase(old(self).spec_stream(), final(self).spec_stream()),
            streams_tuning_preserved(old(self).spec_streams()@, final(self).spec_streams()@),
    {
        let mut merge_sum: i128 = 0;
        let mut merged_any: bool = false;
        let mut merge_reg: u32 = 0;
        let n = self.data_stream.len();
        let mut i: usize = 0;
        while i < n
            invariant
                i <= n,
                self.wf(),
                self.spec_level() == old(self).spec_level(),
                self.spec_mode() == old(self).spec_mode(),
                self.spec_rom_bank() == old(self).spec_rom_bank(),
                self.spec_stream().ticks_owed() == old(self).spec_stream().ticks_owed(),
                self.spec_stream().drained() == old(self).spec_stream().drained(),
                spec_same_kind_and_phase(old(self).spec_stream(), self.spec_stream()),
                n == self.spec_streams()@.len(),
                n == old(self).spec_streams()@.len(),
                streams_tuning_preserved(old(self).spec_streams()@, self.spec_streams()@),
                -128 * (i as int) <= merge_sum <= 128 * (i as int),
            decreases n - i,
        {
            let ghost pre_iter = self.spec_streams()@;
            let ds = self.data_stream.value_at_mut(i);
            let emitted = ds.tick();
            proof {
                lemma_streams_tuning_tick_at(pre_iter, self.spec_streams()@, i as int);
                lemma_streams_tuning_trans(
                    old(self).spec_streams()@,
                    pre_iter,
                    self.spec_streams()@,
                );
            }
            match emitted {
                Some((data_block_id, data_block_pos, _write_port, write_reg)) => {
                    match data_block.get(data_block_id) {
                        Some(block) => {
                            let bytes = block.get_data_block();
                            if data_block_pos < bytes.len() {
                                let data = bytes[data_block_pos];
                                if self.data_stream_mode == DataStreamMode::Parallel {
                                    let new_rate = self.sound_chip.write(
                                        sound_chip_index,
                                        write_reg,
                                        data as u32,
                                    );
                                    match new_rate {
                                        Some(rate) => self.sound_stream.set_sampling_rate(rate),
                                        None => {
                                        },
                                    }
                                } else {
                                    merge_sum = merge_sum + sample_s8(data) as i128;
                                    merged_any = true;
                                    merge_reg = write_reg;
                                }
                            }
                        },
                        None => {
                        },
                    }
                },
                None => {
                },
            }
            i = i + 1;
        }
        if merged_any && self.data_stream_mode == DataStreamMode::MergeS8le {
            let merged = merge_rebias(merge_sum);
            let new_rate = self.sound_chip.write(sound_chip_index, merge_reg, merged);
            match new_rate {
                Some(rate) => self.sound_stream.set_sampling_rate(rate),
                None => {
                },
            }
        }
    }

    /// Generate one output-domain stereo sample.
    ///
    /// The strategy is ticked for every owed chip tick — delivering
    /// data-stream bytes before each one — then drained, and the drained
    /// pair is scaled by the output level rate.
    pub fn generate(&mut self, sound_chip_index: usize, data_block: &Table<DataBlock>) -> (out: (
        i32,
        i32,
    ))
        requires
            old(self).wf(),
        ensures
            final(self).wf(),
            final(self).spec_level() == old(self).spec_level(),
            final(self).spec_mode() == old(self).spec_mode(),
            final(self).spec_rom_bank() == old(self).spec_rom_bank(),
            streams_tuning_preserved(old(self).spec_streams()@, final(self).spec_streams()@),
            spec_device_emitted(*old(self), *final(self), out),
            old(self).spec_stream().ticks_owed() == 0 ==> final(self).spec_stream() == old(self).spec_stream().after_drain() && final(self).spec_streams() == old(self).spec_streams()
                && out.0 as int == spec_apply_level(
                old(self).spec_stream().drained().0 as int,
                old(self).spec_level() as int,
            ) && out.1 as int == spec_apply_level(
                old(self).spec_stream().drained().1 as int,
                old(self).spec_level() as int,
            ),
    {
        loop
            invariant
                self.wf(),
                self.spec_level() == old(self).spec_level(),
                self.spec_mode() == old(self).spec_mode(),
                self.spec_rom_bank() == old(self).spec_rom_bank(),
                streams_tuning_preserved(old(self).spec_streams()@, self.spec_streams()@),
                spec_same_kind_and_phase(old(self).spec_stream(), self.spec_stream()),
                old(self).spec_stream().ticks_owed() == 0 ==> *self == *old(self),
            ensures
                self.wf(),
                self.spec_stream().ticks_owed() == 0,
                self.spec_level() == old(self).spec_level(),
                self.spec_mode() == old(self).spec_mode(),
                self.spec_rom_bank() == old(self).spec_rom_bank(),
                streams_tuning_preserved(old(self).spec_streams()@, self.spec_streams()@),
                spec_same_kind_and_phase(old(self).spec_stream(), self.spec_stream()),
                old(self).spec_stream().ticks_owed() == 0 ==> *self == *old(self),
            decreases self.spec_stream().ticks_owed(),
        {
            let is_tick = self.sound_stream.is_tick();
            if is_tick == Tick::No {
                break;
            }
            let ghost pre_iter = self.spec_streams()@;
            self.write_data_stream(sound_chip_index, data_block);
            proof {
                lemma_streams_tuning_trans(
                    old(self).spec_streams()@,
                    pre_iter,
                    self.spec_streams()@,
                );
            }
            let (l, r) = self.sound_chip.tick(sound_chip_index, &self.sound_rom_set);
            self.sound_stream.push(l, r);
            if is_tick == Tick::One {
                break;
            }
        }
        let ghost pre_drain = self.sound_stream;
        let (l, r) = self.sound_stream.drain();
        let out = (apply_level(l, self.output_level_rate), apply_level(r, self.output_level_rate));
        proof {
            assert(pre_drain.wf() && pre_drain.ticks_owed() == 0 && spec_same_kind_and_phase(
                old(self).spec_stream(),
                pre_drain,
            ) && self.spec_stream() == pre_drain.after_drain() && out.0 as int == spec_apply_level(
                pre_drain.drained().0 as int,
                old(self).spec_level() as int,
            ) && out.1 as int == spec_apply_level(
                pre_drain.drained().1 as int,
                old(self).spec_level() as int,
            ));
        }
        out
    }

    /// Set the fixed-point output gain rate. The channel argument is
    /// accepted for interface compatibility; the rate applies to both
    /// channels.
    pub fn set_output_level_rate(&mut self, _channel: usize, output_level_rate: u32)
        ensures
            final(self).spec_level() == output_level_rate,
            final(self).spec_stream() == old(self).spec_stream(),
            final(self).spec_mode() == old(self).spec_mode(),
            final(self).spec_rom_bank() == old(self).spec_rom_bank(),
            final(self).spec_streams() == old(self).spec_streams(),
    {
        self.output_level_rate = output_level_rate;
    }

    /// Forward one register write to the chip; a chip that re-derives its
    /// native rate from the write retunes the strategy in place.
    pub fn write(&mut self, sound_chip_index: usize, port: u32, data: u32)
        requires
            old(self).wf(),
        ensures
            final(self).wf(),
            final(self).spec_level() == old(self).spec_level(),
            final(self).spec_mode() == old(self).spec_mode(),
            final(self).spec_rom_bank() == old(self).spec_rom_bank(),
            final(self).spec_streams() == old(self).spec_streams(),
            final(self).spec_stream() == old(self).spec_stream() || (exists|rate: u32|
                final(self).spec_stream() == #[trigger] old(self).spec_stream().spec_retuned(
                    rate,
                )),
            spec_same_kind_and_phase(old(self).spec_stream(), final(self).spec_stream()),
            final(self).spec_stream().ticks_owed() == old(self).spec_stream().ticks_owed(),
            final(self).spec_stream().drained() == old(self).spec_stream().drained(),
    {
        let new_rate = self.sound_chip.write(sound_chip_index, port, data);
        match new_rate {
            Some(rate) => {
                self.sound_stream.set_sampling_rate(rate);
                proof {
                    assert(self.spec_stream() == old(self).spec_stream().spec_retuned(rate));
                }
            },
            None => {
            },
        }
    }

    /// Append a byte range to one of the device's ROM regions and tell
    /// the chip the assigned range index. A region the device does not
    /// own is left untouched.
    pub fn add_rom(
        &mut self,
        rom_index: RomIndex,
        memory: &[u8],
        start_address: usize,
        end_address: usize,
    )
        requires
            old(self).wf(),
        ensures
            final(self).wf(),
            final(self).spec_stream() == old(self).spec_stream(),
            final(self).spec_level() == old(self).spec_level(),
            final(self).spec_mode() == old(self).spec_mode(),
            final(self).spec_streams() == old(self).spec_streams(),
            !old(self).spec_rom_bank().spec_contains(rom_index) ==> final(self).spec_rom_bank()
                == old(self).spec_rom_bank(),
            old(self).spec_rom_bank().spec_contains(rom_index) ==> {
                let pre = old(self).spec_rom_bank().spec_set(rom_index)@;
                let post = final(self).spec_rom_bank().spec_set(rom_index)@;
                &&& post.len() == pre.len() + 1
                &&& (forall|i: int| 0 <= i < pre.len() ==> post[i] == pre[i])
                &&& post[pre.len() as int].start_address == start_address
                &&& post[pre.len() as int].end_address == end_address
                &&& post[pre.len() as int].data@ == memory@
            },
            forall|ri: RomIndex| #[trigger]
                final(self).spec_rom_bank().spec_contains(ri) == old(self).spec_rom_bank().spec_contains(ri),
            forall|ri: RomIndex|
                ri != rom_index && old(self).spec_rom_bank().spec_contains(ri) ==> final(self).spec_rom_bank().spec_set(ri) == old(self).spec_rom_bank().spec_set(ri),
    {
        if self.sound_rom_set.contains(rom_index) {
            let index_no = self.sound_rom_set.add_rom(
                rom_index,
                memory,
                start_address,
                end_address,
            );
            match index_no {
                Some(index_no) => self.sound_chip.notify_add_rom(rom_index, index_no),
                None => {
                },
            }
        }
    }

    /// Select the chip's ROM bus addressing convention.
    pub fn set_rom_bus_type(&mut self, rom_bus_type: Option<RomBusType>)
        requires
            old(self).wf(),
        ensures
            final(self).wf(),
            final(self).spec_stream() == old(self).spec_stream(),
            final(self).spec_level() == old(self).spec_level(),
            final(self).spec_mode() == old(self).spec_mode(),
            final(self).spec_rom_bank() == old(self).spec_rom_bank(),
            final(self).spec_streams() == old(self).spec_streams(),
    {
        self.sound_chip.set_rom_bus(rom_bus_type);
    }

    /// Add (or replace) the data stream stored under `data_stream_id`.
    pub fn add_data_stream(&mut self, data_stream_id: usize, data_stream: DataStream)
        requires
            old(self).wf(),
        ensures
            final(self).wf(),
            final(self).spec_stream() == old(self).spec_stream(),
            final(self).spec_level() == old(self).spec_level(),
            final(self).spec_mode() == old(self).spec_mode(),
            final(self).spec_rom_bank() == old(self).spec_rom_bank(),
            final(self).spec_streams().spec_contains(data_stream_id),
            final(self).spec_streams().spec_at(data_stream_id) == data_stream,
            forall|k: usize|
                k != data_stream_id ==> #[trigger] final(self).spec_streams().spec_contains(k)
                    == old(self).spec_streams().spec_contains(k) && (old(self).spec_streams().spec_contains(k) ==> final(self).spec_streams().spec_at(k) == old(self).spec_streams().spec_at(k)),
    {
        self.data_stream.insert(data_stream_id, data_stream);
    }

    /// Select the data-stream merge mode.
    pub fn set_data_stream_mode(&mut self, data_stream_mode: DataStreamMode)
        ensures
            final(self).spec_mode() == data_stream_mode,
            final(self).spec_stream() == old(self).spec_stream(),
            final(self).spec_level() == old(self).spec_level(),
            final(self).spec_rom_bank() == old(self).spec_rom_bank(),
            final(self).spec_streams() == old(self).spec_streams(),
    {
        self.data_stream_mode = data_stream_mode;
    }

    /// Retune one data stream's delivery frequency against the chip's
    /// current native rate; a missing stream id is a silent no-op.
    pub fn set_data_stream_frequency(&mut self, data_stream_id: usize, frequency: u32)
        requires
            old(self).wf(),
        ensures
            final(self).wf(),
            final(self).spec_stream() == old(self).spec_stream(),
            final(self).spec_level() == old(self).spec_level(),
            final(self).spec_mode() == old(self).spec_mode(),
            final(self).spec_rom_bank() == old(self).spec_rom_bank(),
            !old(self).spec_streams().spec_contains(data_stream_id) ==> final(self).spec_streams()
                == old(self).spec_streams(),
            old(self).spec_streams().spec_contains(data_stream_id) ==> final(self).spec_streams().spec_at(data_stream_id)@ == (DataStreamView {
                sampling_rate: old(self).spec_stream().spec_sampling_rate(),
                frequency,
                ..old(self).spec_streams().spec_at(data_stream_id)@
            }),
            forall|k: usize| #[trigger]
                final(self).spec_streams().spec_contains(k) == old(self).spec_streams().spec_contains(k),
            forall|k: usize|
                k != data_stream_id && old(self).spec_streams().spec_contains(k) ==> final(self).spec_streams().spec_at(k) == old(self).spec_streams().spec_at(k),
    {
        let ghost pre = self.data_stream@;
        match self.data_stream.index_of(data_stream_id) {
            Some(i) => {
                let sampling_rate = self.sound_stream.get_sampling_rate();
                let ds = self.data_stream.value_at_mut(i);
                ds.set_frequency(sampling_rate, frequency);
                proof {
                    lemma_table_find_range(pre, data_stream_id);
                    lemma_table_update_at_key(pre, self.data_stream@, i as int);
                }
            },
            None => {
            },
        }
    }

    /// Attach a data block id to one data stream; a missing stream id is
    /// a silent no-op.
    pub fn attach_data_block_to_stream(&mut self, data_stream_id: usize, data_block_id: usize)
        requires
            old(self).wf(),
        ensures
            final(self).wf(),
            final(self).spec_stream() == old(self).spec_stream(),
            final(self).spec_level() == old(self).spec_level(),
            final(self).spec_mode() == old(self).spec_mode(),
            final(self).spec_rom_bank() == old(self).spec_rom_bank(),
            !old(self).spec_streams().spec_contains(data_stream_id) ==> final(self).spec_streams()
                == old(self).spec_streams(),
            old(self).spec_streams().spec_contains(data_stream_id) ==> final(self).spec_streams().spec_at(data_stream_id)@ == (DataStreamView {
                data_block_id,
                ..old(self).spec_streams().spec_at(data_stream_id)@
            }),
            forall|k: usize| #[trigger]
                final(self).spec_streams().spec_contains(k) == old(self).spec_streams().spec_contains(k),
            forall|k: usize|
                k != data_stream_id && old(self).spec_streams().spec_contains(k) ==> final(self).spec_streams().spec_at(k) == old(self).spec_streams().spec_at(k),
    {
        let ghost pre = self.data_stream@;
        match self.data_stream.index_of(data_stream_id) {
            Some(i) => {
                let ds = self.data_stream.value_at_mut(i);
                ds.set_data_block_id(data_block_id);
                proof {
                    lemma_table_find_range(pre, data_stream_id);
                    lemma_table_update_at_key(pre, self.data_stream@, i as int);
                }
            },
            None => {
            },
        }
    }

    /// Start one data stream from an explicit block offset with an
    /// explicit byte count; a missing stream id is a silent no-op.
    pub fn start_data_stream(
        &mut self,
        data_stream_id: usize,
        data_block_start_offset: usize,
        data_block_length: usize,
    )
        requires
            old(self).wf(),
        ensures
            final(self).wf(),
            final(self).spec_stream() == old(self).spec_stream(),
            final(self).spec_level() == old(self).spec_level(),
            final(self).spec_mode() == old(self).spec_mode(),
            final(self).spec_rom_bank() == old(self).spec_rom_bank(),
            !old(self).spec_streams().spec_contains(data_stream_id) ==> final(self).spec_streams()
                == old(self).spec_streams(),
            old(self).spec_streams().spec_contains(data_stream_id) ==> final(self).spec_streams().spec_at(data_stream_id)@ == (DataStreamView {
                pos: data_block_start_offset,
                remain: data_block_length,
                pace: 0u32,
                playing: true,
                ..old(self).spec_streams().spec_at(data_stream_id)@
            }),
            forall|k: usize| #[trigger]
                final(self).spec_streams().spec_contains(k) == old(self).spec_streams().spec_contains(k),
            forall|k: usize|
                k != data_stream_id && old(self).spec_streams().spec_contains(k) ==> final(self).spec_streams().spec_at(k) == old(self).spec_streams().spec_at(k),
    {
        let ghost pre = self.data_stream@;
        match self.data_stream.index_of(data_stream_id) {
            Some(i) => {
                let ds = self.data_stream.value_at_mut(i);
                ds.start_data_stream(Some(data_block_start_offset), data_block_length);
                proof {
                    lemma_table_find_range(pre, data_stream_id);
                    lemma_table_update_at_key(pre, self.data_stream@, i as int);
                }
            },
            None => {
            },
        }
    }

    /// Attach a block and start the stream from its beginning; a missing
    /// stream id is a silent no-op.
    pub fn start_data_stream_fast(
        &mut self,
        data_stream_id: usize,
        data_block_id: usize,
        data_block_length: usize,
    )
        requires
            old(self).wf(),
        ensures
            final(self).wf(),
            final(self).spec_stream() == old(self).spec_stream(),
            final(self).spec_level() == old(self).spec_level(),
            final(self).spec_mode() == old(self).spec_mode(),
            final(self).spec_rom_bank() == old(self).spec_rom_bank(),
            !old(self).spec_streams().spec_contains(data_stream_id) ==> final(self).spec_streams()
                == old(self).spec_streams(),
            old(self).spec_streams().spec_contains(data_stream_id) ==> final(self).spec_streams().spec_at(data_stream_id)@ == (DataStreamView {
                data_block_id,
                pos: 0usize,
                remain: data_block_length,
                pace: 0u32,
                playing: true,
                ..old(self).spec_streams().spec_at(data_stream_id)@
            }),
            forall|k: usize| #[trigger]
                final(self).spec_streams().spec_contains(k) == old(self).spec_streams().spec_contains(k),
            forall|k: usize|
                k != data_stream_id && old(self).spec_streams().spec_contains(k) ==> final(self).spec_streams().spec_at(k) == old(self).spec_streams().spec_at(k),
    {
        let ghost pre = self.data_stream@;
        match self.data_stream.index_of(data_stream_id) {
            Some(i) => {
                let ds = self.data_stream.value_at_mut(i);
                ds.set_data_block_id(data_block_id);
                ds.start_data_stream(None, data_block_length);
                proof {
                    lemma_table_find_range(pre, data_stream_id);
                    lemma_table_update_at_key(pre, self.data_stream@, i as int);
                }
            },
            None => {
            },
        }
    }

    /// Stop one data stream; a missing stream id is a silent no-op.
    pub fn stop_data_stream(&mut self, data_stream_id: usize)
        requires
            old(self).wf(),
        ensures
            final(self).wf(),
            final(self).spec_stream() == old(self).spec_stream(),
            final(self).spec_level() == old(self).spec_level(),
            final(self).spec_mode() == old(self).spec_mode(),
            final(self).spec_rom_bank() == old(self).spec_rom_bank(),
            !old(self).spec_streams().spec_contains(data_stream_id) ==> final(self).spec_streams()
                == old(self).spec_streams(),
            old(self).spec_streams().spec_contains(data_stream_id) ==> final(self).spec_streams().spec_at(data_stream_id)@ == (DataStreamView {
                playing: false,
                ..old(self).spec_streams().spec_at(data_stream_id)@
            }),
            forall|k: usize| #[trigger]
                final(self).spec_streams().spec_contains(k) == old(self).spec_streams().spec_contains(k),
            forall|k: usize|
                k != data_stream_id && old(self).spec_streams().spec_contains(k) ==> final(self).spec_streams().spec_at(k) == old(self).spec_streams().spec_at(k),
    {
        let ghost pre = self.data_stream@;
        match self.data_stream.index_of(data_stream_id) {
            Some(i) => {
                let ds = self.data_stream.value_at_mut(i);
                ds.stop_data_stream();
                proof {
                    lemma_table_find_range(pre, data_stream_id);
                    lemma_table_update_at_key(pre, self.data_stream@, i as int);
                }
            },
            None => {
            },
        }
    }

    /// Whether one data stream is stopped; a missing stream id reads as
    /// stopped. No side effects.
    pub fn is_stop_data_stream(&self, data_stream_id: usize) -> (r: bool)
        ensures
            self.spec_streams().spec_contains(data_stream_id) ==> r == {
                let s = self.spec_streams().spec_at(data_stream_id)@;
                !s.playing || s.remain == 0
            },
            !self.spec_streams().spec_contains(data_stream_id) ==> r == true,
    {
        match self.data_stream.get(data_stream_id) {
            Some(ds) => ds.is_stop_data_stream(),
            None => true,
        }
    }
}

} // verus!
