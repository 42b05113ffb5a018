use chipstream::chip::{RomBusType, RomIndex, SoundChip, SoundChipType};
use chipstream::device::DataStreamMode;
use chipstream::rom::RomSetBank;
use chipstream::sample::{LEVEL_RATE_HALF, LEVEL_RATE_ONE};
use chipstream::slot::SoundSlot;

/// A deterministic chip model for exercising the engine: its native
/// rate is the clock it was initialized with; register writes set the
/// value it plays; a write to port 9 switches it to counting ticks; a
/// write to port 8 makes it play bytes out of the SEGAPCM ROM region.
struct TestChip {
    value: i32,
    ticks: i32,
    counting: bool,
    rom_playback: bool,
}

impl SoundChip for TestChip {
    fn create(_sound_chip_type: SoundChipType) -> Self {
        TestChip { value: 0, ticks: 0, counting: false, rom_playback: false }
    }

    fn init(&mut self, clock: u32) -> u32 {
        clock
    }

    fn write(&mut self, _index: usize, port: u32, data: u32) -> Option<u32> {
        if port == 9 {
            self.counting = true;
        } else if port == 8 {
            self.rom_playback = true;
        } else if port == 7 {
            return Some(data);
        } else {
            self.value = data as i32;
        }
        None
    }

    fn tick(&mut self, _index: usize, rom_bank: &RomSetBank) -> (i32, i32) {
        self.ticks += 1;
        let sample = if self.counting {
            self.ticks
        } else if self.rom_playback {
            rom_bank.read(RomIndex::SEGAPCM_ROM, (self.ticks - 1) as usize) as i32
        } else {
            self.value
        };
        (sample, sample)
    }

    fn notify_add_rom(&mut self, _rom_index: RomIndex, _index_no: usize) {}

    fn set_rom_bus(&mut self, _rom_bus_type: Option<RomBusType>) {}
}

fn filled_after(tick_rate: u32, output_rate: u32, chunk: usize, ticks: usize) -> bool {
    let mut slot: SoundSlot<TestChip> = SoundSlot::new(tick_rate, output_rate, chunk);
    slot.update(ticks);
    slot.is_stream_filled()
}

#[test]
fn sample_count_follows_the_rate_ratio() {
    // ceil(7 * 300 / 100) = 21 samples, exactly.
    assert!(filled_after(100, 300, 21, 7));
    assert!(!filled_after(100, 300, 22, 7));
    // Equal rates: one sample per tick.
    assert!(filled_after(100, 100, 5, 5));
    assert!(!filled_after(100, 100, 6, 5));
    // ceil(5 * 3 / 2) = 8.
    assert!(filled_after(2, 3, 8, 5));
    assert!(!filled_after(2, 3, 9, 5));
}

#[test]
fn sample_count_does_not_drift_over_long_runs() {
    // One minute of 44100 Hz ticks against a 48000 Hz output:
    // exactly 2 880 000 samples, with zero accumulated error.
    let ticks = 44100usize * 60;
    let expected = 2_880_000usize;
    let mut slot: SoundSlot<TestChip> = SoundSlot::new(44100, 48000, expected);
    slot.update(ticks);
    assert!(slot.is_stream_filled());
    let mut slot2: SoundSlot<TestChip> = SoundSlot::new(44100, 48000, expected + 1);
    slot2.update(ticks);
    assert!(!slot2.is_stream_filled());
}

#[test]
fn update_accumulates_across_calls() {
    // 7 ticks in one call and 7 ticks one at a time emit the same count.
    let mut slot: SoundSlot<TestChip> = SoundSlot::new(100, 300, 21);
    for _ in 0..7 {
        slot.update(1);
    }
    assert!(slot.is_stream_filled());
    let mut slot2: SoundSlot<TestChip> = SoundSlot::new(100, 300, 22);
    for _ in 0..7 {
        slot2.update(1);
    }
    assert!(!slot2.is_stream_filled());
}

#[test]
fn stream_zero_fills_after_draining() {
    // Three buffered samples of value 7, chunk size four: the first
    // drain yields them plus silence, the second only silence.
    let mut slot: SoundSlot<TestChip> = SoundSlot::new(100, 100, 4);
    slot.add_sound_device(SoundChipType::YM2612, 1, 100);
    slot.write(SoundChipType::YM2612, 0, 0, 7);
    slot.update(3);
    slot.stream();
    assert_eq!(slot.get_output_sampling_l_ref().as_slice(), &[7, 7, 7, 0]);
    assert_eq!(slot.get_output_sampling_r_ref().as_slice(), &[7, 7, 7, 0]);
    slot.stream();
    assert_eq!(slot.get_output_sampling_l_ref().as_slice(), &[0, 0, 0, 0]);
    assert_eq!(slot.get_output_sampling_r_ref().as_slice(), &[0, 0, 0, 0]);
}

#[test]
fn stream_overwrites_the_whole_chunk_when_full() {
    let mut slot: SoundSlot<TestChip> = SoundSlot::new(100, 100, 2);
    slot.add_sound_device(SoundChipType::YM2612, 1, 100);
    slot.write(SoundChipType::YM2612, 0, 0, 5);
    slot.update(4);
    slot.stream();
    assert_eq!(slot.get_output_sampling_l_ref().as_slice(), &[5, 5]);
    slot.write(SoundChipType::YM2612, 0, 0, 9);
    slot.update(2);
    slot.stream();
    assert_eq!(slot.get_output_sampling_l_ref().as_slice(), &[5, 5]);
    slot.stream();
    assert_eq!(slot.get_output_sampling_l_ref().as_slice(), &[9, 9]);
}

#[test]
fn merge_s8le_sums_clamps_and_rebiases() {
    // Two streams carrying bytes 228 (signed -28) and 50 into the same
    // register: the merged write is clamp(-28 + 50) + 128 = 150.
    let mut slot: SoundSlot<TestChip> = SoundSlot::new(100, 100, 1);
    slot.add_sound_device(SoundChipType::YM2612, 1, 100);
    slot.set_data_stream_mode(SoundChipType::YM2612, 0, DataStreamMode::MergeS8le);
    slot.add_data_block(0, &[228u8]);
    slot.add_data_block(1, &[50u8]);
    slot.add_data_stream(SoundChipType::YM2612, 0, 0, 0, 0x2a);
    slot.add_data_stream(SoundChipType::YM2612, 0, 1, 0, 0x2a);
    slot.set_data_stream_frequency(SoundChipType::YM2612, 0, 0, 100);
    slot.set_data_stream_frequency(SoundChipType::YM2612, 0, 1, 100);
    slot.attach_data_block_to_stream(SoundChipType::YM2612, 0, 0, 0);
    slot.attach_data_block_to_stream(SoundChipType::YM2612, 0, 1, 1);
    slot.start_data_stream(SoundChipType::YM2612, 0, 0, 0, 1);
    slot.start_data_stream(SoundChipType::YM2612, 0, 1, 0, 1);
    slot.update(1);
    slot.stream();
    assert_eq!(slot.get_output_sampling_l_ref().as_slice(), &[150]);
}

#[test]
fn parallel_streams_write_independently() {
    // Same two bytes in parallel mode: each write lands on its own, the
    // last one wins on the shared register — the chip plays 50.
    let mut slot: SoundSlot<TestChip> = SoundSlot::new(100, 100, 1);
    slot.add_sound_device(SoundChipType::YM2612, 1, 100);
    slot.add_data_block(0, &[228u8]);
    slot.add_data_block(1, &[50u8]);
    slot.add_data_stream(SoundChipType::YM2612, 0, 0, 0, 0x2a);
    slot.add_data_stream(SoundChipType::YM2612, 0, 1, 0, 0x2a);
    slot.set_data_stream_frequency(SoundChipType::YM2612, 0, 0, 100);
    slot.set_data_stream_frequency(SoundChipType::YM2612, 0, 1, 100);
    slot.attach_data_block_to_stream(SoundChipType::YM2612, 0, 0, 0);
    slot.attach_data_block_to_stream(SoundChipType::YM2612, 0, 1, 1);
    slot.start_data_stream(SoundChipType::YM2612, 0, 0, 0, 1);
    slot.start_data_stream(SoundChipType::YM2612, 0, 1, 0, 1);
    slot.update(1);
    slot.stream();
    assert_eq!(slot.get_output_sampling_l_ref().as_slice(), &[50]);
}

#[test]
fn half_gain_halves_every_sample() {
    // Two identical runs, one at unit gain and one at half gain: each
    // half-gain sample is exactly the unit-gain sample scaled by 1/2.
    let values = [101u32, 7, 4000];
    let mut full: Vec<i32> = Vec::new();
    let mut half: Vec<i32> = Vec::new();
    for (rate, out) in [(LEVEL_RATE_ONE, &mut full), (LEVEL_RATE_HALF, &mut half)] {
        let mut slot: SoundSlot<TestChip> = SoundSlot::new(100, 100, 3);
        slot.add_sound_device(SoundChipType::YM2612, 1, 100);
        slot.set_output_level_rate(SoundChipType::YM2612, 0, 0, rate);
        for v in values {
            slot.write(SoundChipType::YM2612, 0, 0, v);
            slot.update(1);
        }
        slot.stream();
        out.extend_from_slice(slot.get_output_sampling_l_ref().as_slice());
    }
    assert_eq!(full, vec![101, 7, 4000]);
    for k in 0..full.len() {
        assert_eq!(half[k], full[k] / 2);
    }
}

#[test]
fn write_to_missing_device_is_a_silent_no_op() {
    // No device exists: the write must neither panic nor disturb state.
    let mut slot: SoundSlot<TestChip> = SoundSlot::new(100, 100, 2);
    slot.write(SoundChipType::YM2612, 0, 0, 77);
    assert!(!slot.is_stream_filled());
    slot.add_sound_device(SoundChipType::YM2612, 1, 100);
    // Instance 1 does not exist: ignored, instance 0 still plays 0.
    slot.write(SoundChipType::YM2612, 1, 0, 77);
    slot.update(2);
    slot.stream();
    assert_eq!(slot.get_output_sampling_l_ref().as_slice(), &[0, 0]);
}

#[test]
fn devices_mix_additively() {
    let mut slot: SoundSlot<TestChip> = SoundSlot::new(100, 100, 1);
    slot.add_sound_device(SoundChipType::YM2612, 2, 100);
    slot.add_sound_device(SoundChipType::SEGAPSG, 1, 100);
    slot.write(SoundChipType::YM2612, 0, 0, 10);
    slot.write(SoundChipType::YM2612, 1, 0, 20);
    slot.write(SoundChipType::SEGAPSG, 0, 0, 300);
    slot.update(1);
    slot.stream();
    assert_eq!(slot.get_output_sampling_l_ref().as_slice(), &[330]);
}

#[test]
fn nearest_downsampling_keeps_every_other_tick() {
    // Native rate twice the output rate: the counter chip's even ticks
    // are retained.
    let mut slot: SoundSlot<TestChip> = SoundSlot::new(100, 100, 3);
    slot.add_sound_device(SoundChipType::YM2612, 1, 200);
    slot.write(SoundChipType::YM2612, 0, 9, 1);
    slot.update(3);
    slot.stream();
    assert_eq!(slot.get_output_sampling_l_ref().as_slice(), &[2, 4, 6]);
}

#[test]
fn oversampling_averages_the_window() {
    let mut slot: SoundSlot<TestChip> = SoundSlot::new(100, 100, 3);
    slot.add_sound_device(SoundChipType::SEGAPSG, 1, 200);
    slot.write(SoundChipType::SEGAPSG, 0, 9, 1);
    slot.update(3);
    slot.stream();
    // Averages of (1,2), (3,4), (5,6), truncating toward zero.
    assert_eq!(slot.get_output_sampling_l_ref().as_slice(), &[1, 3, 5]);
}

#[test]
fn sample_hold_upsampling_repeats_native_samples() {
    let mut slot: SoundSlot<TestChip> = SoundSlot::new(100, 100, 4);
    slot.add_sound_device(SoundChipType::OKIM6258, 1, 50);
    slot.write(SoundChipType::OKIM6258, 0, 9, 1);
    slot.update(4);
    slot.stream();
    assert_eq!(slot.get_output_sampling_l_ref().as_slice(), &[1, 1, 2, 2]);
}

#[test]
fn linear_upsampling_interpolates() {
    let mut slot: SoundSlot<TestChip> = SoundSlot::new(100, 100, 4);
    slot.add_sound_device(SoundChipType::YM2612, 1, 50);
    slot.write(SoundChipType::YM2612, 0, 0, 100);
    slot.update(4);
    slot.stream();
    assert_eq!(slot.get_output_sampling_l_ref().as_slice(), &[0, 50, 100, 100]);
}

#[test]
fn rom_playback_reads_appended_ranges() {
    let mut slot: SoundSlot<TestChip> = SoundSlot::new(100, 100, 4);
    slot.add_sound_device(SoundChipType::SEGAPCM, 1, 100);
    slot.add_rom(SoundChipType::SEGAPCM, 0, RomIndex::SEGAPCM_ROM, &[10u8, 20], 0, 1);
    slot.add_rom(SoundChipType::SEGAPCM, 0, RomIndex::SEGAPCM_ROM, &[30u8, 40], 2, 3);
    slot.set_rom_bus_type(SoundChipType::SEGAPCM, 0, RomIndex::SEGAPCM_ROM, None);
    slot.write(SoundChipType::SEGAPCM, 0, 8, 1);
    slot.update(4);
    slot.stream();
    assert_eq!(slot.get_output_sampling_l_ref().as_slice(), &[10, 20, 30, 40]);
}

#[test]
fn fast_start_plays_a_whole_block() {
    let mut slot: SoundSlot<TestChip> = SoundSlot::new(100, 100, 3);
    slot.add_sound_device(SoundChipType::YM2612, 1, 100);
    slot.add_data_block(5, &[60u8, 61]);
    assert_eq!(slot.get_data_block(5), Some(&[60u8, 61][..]));
    assert_eq!(slot.get_data_block(6), None);
    slot.add_data_stream(SoundChipType::YM2612, 0, 0, 0, 0);
    slot.set_data_stream_frequency(SoundChipType::YM2612, 0, 0, 100);
    slot.start_data_stream_fast(SoundChipType::YM2612, 0, 0, 5);
    assert!(!slot.is_stop_data_stream(SoundChipType::YM2612, 0, 0));
    slot.update(3);
    slot.stream();
    // Two bytes delivered, then the stream auto-stops and the last
    // written value keeps sounding.
    assert_eq!(slot.get_output_sampling_l_ref().as_slice(), &[60, 61, 61]);
    assert!(slot.is_stop_data_stream(SoundChipType::YM2612, 0, 0));
    slot.stop_data_stream(SoundChipType::YM2612, 0, 0);
    assert!(slot.is_stop_data_stream(SoundChipType::YM2612, 0, 0));
}

#[test]
fn missing_stream_queries_read_as_stopped() {
    let mut slot: SoundSlot<TestChip> = SoundSlot::new(100, 100, 1);
    assert!(slot.is_stop_data_stream(SoundChipType::YM2612, 0, 0));
    slot.add_sound_device(SoundChipType::YM2612, 1, 100);
    assert!(slot.is_stop_data_stream(SoundChipType::YM2612, 0, 3));
}

#[test]
fn s16le_conversion_interleaves_and_saturates() {
    let mut slot: SoundSlot<TestChip> = SoundSlot::new(100, 100, 2);
    slot.add_sound_device(SoundChipType::YM2612, 1, 100);
    slot.write(SoundChipType::YM2612, 0, 0, 1000);
    slot.update(1);
    slot.write(SoundChipType::YM2612, 0, 0, 70000);
    slot.update(1);
    slot.stream();
    assert_eq!(slot.get_output_sampling_s16le_ref().as_slice(), &[1000i16, 1000, 32767, 32767]);
    assert_eq!(slot.get_output_sampling_s16le(), vec![1000i16, 1000, 32767, 32767]);
}

#[test]
fn external_tick_rate_can_be_retuned() {
    let mut slot: SoundSlot<TestChip> = SoundSlot::new(100, 300, 3);
    slot.change_external_tick_rate(300);
    slot.update(3);
    // At matching rates, one sample per tick.
    assert!(slot.is_stream_filled());
    slot.stream();
    slot.update(1);
    assert!(!slot.is_stream_filled());
}

#[test]
fn chip_can_retune_its_resampler_through_a_write() {
    // The counter chip starts at twice the output rate (two ticks per
    // sample); a register write re-derives its native rate to three
    // times the output rate, and the resampler follows without losing
    // its phase.
    let mut slot: SoundSlot<TestChip> = SoundSlot::new(100, 100, 3);
    slot.add_sound_device(SoundChipType::YM2612, 1, 200);
    slot.write(SoundChipType::YM2612, 0, 9, 1);
    slot.update(1);
    slot.write(SoundChipType::YM2612, 0, 7, 300);
    slot.update(2);
    slot.stream();
    assert_eq!(slot.get_output_sampling_l_ref().as_slice(), &[2, 4, 7]);
}
