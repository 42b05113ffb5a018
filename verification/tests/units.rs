use chipstream::chip::{
    get_rom_bus_type, get_rom_index, get_sound_chip_type, RomBusType, RomIndex, SoundChipType,
};
use chipstream::data_stream::{merge_rebias, sample_s8, DataBlock, DataStream};
use chipstream::rom::{RomSet, RomSetBank};
use chipstream::sample::{
    apply_level, convert_sample_to_s16, mix, LEVEL_RATE_HALF, LEVEL_RATE_ONE,
};
use chipstream::stream::{SoundStream, Tick};

#[test]
fn apply_level_unit_rate_is_identity() {
    for v in [0, 1, -1, 32767, -32768, 1000000, -1000000, i32::MAX, i32::MIN] {
        assert_eq!(apply_level(v, LEVEL_RATE_ONE), v);
    }
}

#[test]
fn apply_level_half_rate_halves_toward_zero() {
    assert_eq!(apply_level(100, LEVEL_RATE_HALF), 50);
    assert_eq!(apply_level(101, LEVEL_RATE_HALF), 50);
    assert_eq!(apply_level(-101, LEVEL_RATE_HALF), -50);
    assert_eq!(apply_level(1, LEVEL_RATE_HALF), 0);
    assert_eq!(apply_level(-1, LEVEL_RATE_HALF), 0);
}

#[test]
fn apply_level_amplification_saturates() {
    // A rate of 2.0 on a full-scale sample saturates at the i32 range.
    assert_eq!(apply_level(i32::MAX, 131072), i32::MAX);
    assert_eq!(apply_level(i32::MIN, 131072), i32::MIN);
    assert_eq!(apply_level(1000, 131072), 2000);
}

#[test]
fn mix_saturates_at_i32_range() {
    assert_eq!(mix(1, 2), 3);
    assert_eq!(mix(i32::MAX, 1), i32::MAX);
    assert_eq!(mix(i32::MIN, -1), i32::MIN);
    assert_eq!(mix(-5, 5), 0);
}

#[test]
fn convert_sample_saturates_at_s16_range() {
    assert_eq!(convert_sample_to_s16(0), 0);
    assert_eq!(convert_sample_to_s16(32767), 32767);
    assert_eq!(convert_sample_to_s16(32768), 32767);
    assert_eq!(convert_sample_to_s16(-32768), -32768);
    assert_eq!(convert_sample_to_s16(-32769), -32768);
}

#[test]
fn signed_byte_reading() {
    assert_eq!(sample_s8(228), -28);
    assert_eq!(sample_s8(50), 50);
    assert_eq!(sample_s8(127), 127);
    assert_eq!(sample_s8(128), -128);
    assert_eq!(sample_s8(255), -1);
}

#[test]
fn merge_rebias_clamps_and_rebiases() {
    // The documented bus convention: clamp(-28 + 50, -128..=127) + 128.
    assert_eq!(merge_rebias(-28 + 50), 150);
    assert_eq!(merge_rebias(100 + 50), 255);
    assert_eq!(merge_rebias(-100 - 50), 0);
    assert_eq!(merge_rebias(0), 128);
    assert_eq!(merge_rebias(127), 255);
    assert_eq!(merge_rebias(-128), 0);
}

#[test]
fn rom_append_assigns_indexes_and_grows_address_space() {
    // Ranges [0, 100) then [100, 250): length 250, second index 1.
    let mut rom = RomSet::new();
    let first = vec![7u8; 100];
    let second = vec![9u8; 150];
    assert_eq!(rom.add_rom(&first, 0, 99), 0);
    assert_eq!(rom.add_rom(&second, 100, 249), 1);
    assert_eq!(rom.address_limit(), 250);
    assert_eq!(rom.len(), 2);
    assert_eq!(rom.read(0), 7);
    assert_eq!(rom.read(99), 7);
    assert_eq!(rom.read(100), 9);
    assert_eq!(rom.read(249), 9);
    assert_eq!(rom.read(250), 0);
}

#[test]
fn rom_read_prefers_earlier_ranges() {
    let mut rom = RomSet::new();
    rom.add_rom(&[1u8, 2, 3], 0, 2);
    rom.add_rom(&[9u8, 9, 9], 1, 3);
    assert_eq!(rom.read(1), 2);
    assert_eq!(rom.read(3), 9);
}

#[test]
fn rom_bank_routes_by_region() {
    let mut bank = RomSetBank::new();
    bank.register(RomIndex::SEGAPCM_ROM);
    assert!(bank.contains(RomIndex::SEGAPCM_ROM));
    assert!(!bank.contains(RomIndex::C140_ROM));
    assert_eq!(bank.add_rom(RomIndex::SEGAPCM_ROM, &[5u8, 6], 0, 1), Some(0));
    assert_eq!(bank.add_rom(RomIndex::SEGAPCM_ROM, &[7u8], 2, 2), Some(1));
    assert_eq!(bank.add_rom(RomIndex::C140_ROM, &[8u8], 0, 0), None);
    assert_eq!(bank.read(RomIndex::SEGAPCM_ROM, 1), 6);
    assert_eq!(bank.read(RomIndex::SEGAPCM_ROM, 2), 7);
    assert_eq!(bank.read(RomIndex::C140_ROM, 0), 0);
}

#[test]
fn data_stream_pacing_and_auto_stop() {
    let mut ds = DataStream::new(4, 0x2a);
    assert!(ds.is_stop_data_stream());
    ds.set_frequency(100, 50);
    ds.set_data_block_id(3);
    ds.start_data_stream(Some(10), 2);
    assert!(!ds.is_stop_data_stream());
    // Frequency is half the native rate: a byte every other tick.
    assert_eq!(ds.tick(), None);
    assert_eq!(ds.tick(), Some((3, 10, 4, 0x2a)));
    assert_eq!(ds.tick(), None);
    assert_eq!(ds.tick(), Some((3, 11, 4, 0x2a)));
    // The length counter ran out: the stream auto-stopped.
    assert!(ds.is_stop_data_stream());
    assert_eq!(ds.tick(), None);
}

#[test]
fn data_stream_stop_is_explicit_and_sticky() {
    let mut ds = DataStream::new(0, 1);
    ds.set_frequency(10, 10);
    ds.set_data_block_id(0);
    ds.start_data_stream(None, 5);
    assert_eq!(ds.tick(), Some((0, 0, 0, 1)));
    ds.stop_data_stream();
    assert!(ds.is_stop_data_stream());
    assert_eq!(ds.tick(), None);
}

#[test]
fn data_block_holds_bytes() {
    let block = DataBlock::new(&[1u8, 2, 3]);
    assert_eq!(block.get_data_block(), &[1u8, 2, 3]);
    assert_eq!(block.len(), 3);
}

#[test]
fn native_stream_owes_one_tick_per_sample() {
    // Pass-through: exactly one non-idle signal per native tick.
    let mut s = SoundStream::new_native(44100);
    assert_eq!(s.is_tick(), Tick::One);
    s.push(11, -11);
    assert_eq!(s.is_tick(), Tick::No);
    assert_eq!(s.drain(), (11, -11));
    assert_eq!(s.is_tick(), Tick::One);
}

#[test]
fn nearest_down_at_double_rate_keeps_every_other_tick() {
    // native == 2 * output: two ticks owed per sample, the second kept.
    let mut s = SoundStream::new_nearest_down(200, 100);
    assert_eq!(s.is_tick(), Tick::More);
    s.push(1, 1);
    assert_eq!(s.is_tick(), Tick::One);
    s.push(2, 2);
    assert_eq!(s.is_tick(), Tick::No);
    assert_eq!(s.drain(), (2, 2));
    assert_eq!(s.is_tick(), Tick::More);
    s.push(3, 3);
    s.push(4, 4);
    assert_eq!(s.drain(), (4, 4));
}

#[test]
fn over_sample_averages_the_window() {
    let mut s = SoundStream::new_over_sample(200, 100);
    s.push(1, 10);
    s.push(2, 20);
    assert_eq!(s.drain(), (1, 15));
    s.push(3, 30);
    s.push(4, 40);
    assert_eq!(s.drain(), (3, 35));
}

#[test]
fn linear_up_interpolates_between_native_samples() {
    let mut s = SoundStream::new_linear_up(50, 100);
    assert_eq!(s.is_tick(), Tick::One);
    s.push(100, -100);
    assert_eq!(s.drain(), (0, 0));
    assert_eq!(s.is_tick(), Tick::No);
    assert_eq!(s.drain(), (50, -50));
    assert_eq!(s.is_tick(), Tick::One);
    s.push(100, -100);
    assert_eq!(s.drain(), (100, -100));
}

#[test]
fn sample_hold_repeats_the_last_native_sample() {
    let mut s = SoundStream::new_sample_hold(50, 100);
    assert_eq!(s.is_tick(), Tick::One);
    s.push(33, 44);
    assert_eq!(s.drain(), (33, 44));
    assert_eq!(s.is_tick(), Tick::No);
    assert_eq!(s.drain(), (33, 44));
    assert_eq!(s.is_tick(), Tick::One);
    s.push(55, 66);
    assert_eq!(s.drain(), (55, 66));
}

#[test]
fn phase_is_kept_across_cycles() {
    // native 300, output 200: cycles owe 1 or 2 ticks alternately, with
    // no drift: 3 ticks for every 2 output samples, forever.
    let mut s = SoundStream::new_nearest_down(300, 200);
    let mut ticks = 0u64;
    for _ in 0..1000 {
        loop {
            let t = s.is_tick();
            if t == Tick::No {
                break;
            }
            s.push(0, 0);
            ticks += 1;
            if t == Tick::One {
                break;
            }
        }
        s.drain();
    }
    assert_eq!(ticks, 1500);
}

#[test]
fn chip_type_codes_decode() {
    assert_eq!(get_sound_chip_type(0), Some(SoundChipType::YM2149));
    assert_eq!(get_sound_chip_type(6), Some(SoundChipType::YM2612));
    assert_eq!(get_sound_chip_type(19), Some(SoundChipType::OKIM6295));
    assert_eq!(get_sound_chip_type(20), None);
    assert_eq!(get_sound_chip_type(u32::MAX), None);
}

#[test]
fn rom_index_codes_decode() {
    assert_eq!(get_rom_index(0), Some(RomIndex::YM2608_DELTA_T));
    assert_eq!(get_rom_index(8), Some(RomIndex::C140_ROM));
    assert_eq!(get_rom_index(9), None);
}

#[test]
fn rom_bus_codes_decode() {
    assert_eq!(get_rom_bus_type(0), Some(None));
    assert_eq!(get_rom_bus_type(4), Some(Some(RomBusType::OKIM6295)));
    assert_eq!(get_rom_bus_type(5), None);
}

#[test]
fn linear_up_interpolates_falling_signals() {
    let mut s = SoundStream::new_linear_up(25, 100);
    s.push(-100, 100);
    assert_eq!(s.drain(), (0, 0));
    assert_eq!(s.drain(), (-25, 25));
    assert_eq!(s.drain(), (-50, 50));
    assert_eq!(s.drain(), (-75, 75));
    assert_eq!(s.is_tick(), Tick::One);
}

#[test]
fn over_sample_truncates_negative_averages_toward_zero() {
    let mut s = SoundStream::new_over_sample(200, 100);
    s.push(-1, -10);
    s.push(-2, -21);
    // (-3)/2 and (-31)/2, truncating toward zero.
    assert_eq!(s.drain(), (-1, -15));
}

#[test]
fn retuning_keeps_the_pending_value() {
    let mut s = SoundStream::new_nearest_down(200, 100);
    s.push(5, 5);
    s.push(6, 6);
    s.set_sampling_rate(300);
    assert_eq!(s.get_sampling_rate(), 300);
    assert_eq!(s.drain(), (6, 6));
}
