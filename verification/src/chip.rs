//! Identifiers for the supported sound chips, their ROM regions and ROM bus
//! conventions, and the capability contract every chip model must implement.

use vstd::prelude::*;

use crate::rom::RomSetBank;

verus! {

/// The closed set of emulated sound chips the engine knows how to host.
#[derive(Clone, Copy, Debug, PartialEq, Eq, Structural)]
pub enum SoundChipType {
    YM2149,
    YM2151,
    YM2203,
    YM2413,
    YM2608,
    YM2610,
    YM2612,
    YM3526,
    Y8950,
    YM3812,
    YMF262,
    YMF278B,
    SEGAPSG,
    SN76489,
    PWM,
    SEGAPCM,
    OKIM6258,
    C140,
    C219,
    OKIM6295,
}

/// The closed set of ROM regions a chip may address.
#[allow(non_camel_case_types)]
#[derive(Clone, Copy, Debug, PartialEq, Eq, Structural)]
pub enum RomIndex {
    YM2608_DELTA_T,
    YM2610_ADPCM,
    YM2610_DELTA_T,
    YMF278B_ROM,
    YMF278B_RAM,
    Y8950_ROM,
    SEGAPCM_ROM,
    OKIM6295_ROM,
    C140_ROM,
}

/// The closed set of ROM bus addressing conventions.
#[allow(non_camel_case_types)]
#[derive(Clone, Copy, Debug, PartialEq, Eq, Structural)]
pub enum RomBusType {
    C140_TYPE_SYSTEM2,
    C140_TYPE_SYSTEM21,
    C219_TYPE_ASIC219,
    OKIM6295,
}

/// The chip type encoded by a numeric host code, if the code is known.
pub open spec fn spec_sound_chip_type(code: u32) -> Option<SoundChipType> {
    match code {
        0u32 => Some(SoundChipType::YM2149),
        1u32 => Some(SoundChipType::YM2151),
        2u32 => Some(SoundChipType::YM2203),
        3u32 => Some(SoundChipType::YM2413),
        4u32 => Some(SoundChipType::YM2608),
        5u32 => Some(SoundChipType::YM2610),
        6u32 => Some(SoundChipType::YM2612),
        7u32 => Some(SoundChipType::YM3526),
        8u32 => Some(SoundChipType::Y8950),
        9u32 => Some(SoundChipType::YM3812),
        10u32 => Some(SoundChipType::YMF262),
        11u32 => Some(SoundChipType::YMF278B),
        12u32 => Some(SoundChipType::SEGAPSG),
        13u32 => Some(SoundChipType::SN76489),
        14u32 => Some(SoundChipType::PWM),
        15u32 => Some(SoundChipType::SEGAPCM),
        16u32 => Some(SoundChipType::OKIM6258),
        17u32 => Some(SoundChipType::C140),
        18u32 => Some(SoundChipType::C219),
        19u32 => Some(SoundChipType::OKIM6295),
        _ => None,
    }
}

/// Decode a numeric chip-type code from the host boundary.
///
/// An unrecognized code is surfaced as `None`, a typed failure the host can
/// recover from, instead of a process abort.
pub fn get_sound_chip_type(sound_chip_type: u32) -> (r: Option<SoundChipType>)
    ensures
        r == spec_sound_chip_type(sound_chip_type),
{
    match sound_chip_type {
        0 => Some(SoundChipType::YM2149),
        1 => Some(SoundChipType::YM2151),
        2 => Some(SoundChipType::YM2203),
        3 => Some(SoundChipType::YM2413),
        4 => Some(SoundChipType::YM2608),
        5 => Some(SoundChipType::YM2610),
        6 => Some(SoundChipType::YM2612),
        7 => Some(SoundChipType::YM3526),
        8 => Some(SoundChipType::Y8950),
        9 => Some(SoundChipType::YM3812),
        10 => Some(SoundChipType::YMF262),
        11 => Some(SoundChipType::YMF278B),
        12 => Some(SoundChipType::SEGAPSG),
        13 => Some(SoundChipType::SN76489),
        14 => Some(SoundChipType::PWM),
        15 => Some(SoundChipType::SEGAPCM),
        16 => Some(SoundChipType::OKIM6258),
        17 => Some(SoundChipType::C140),
        18 => Some(SoundChipType::C219),
        19 => Some(SoundChipType::OKIM6295),
        _ => None,
    }
}

/// The ROM region encoded by a numeric host code, if the code is known.
pub open spec fn spec_rom_index(code: u32) -> Option<RomIndex> {
    match code {
        0u32 => Some(RomIndex::YM2608_DELTA_T),
        1u32 => Some(RomIndex::YM2610_ADPCM),
        2u32 => Some(RomIndex::YM2610_DELTA_T),
        3u32 => Some(RomIndex::YMF278B_ROM),
        4u32 => Some(RomIndex::YMF278B_RAM),
        5u32 => Some(RomIndex::Y8950_ROM),
        6u32 => Some(RomIndex::SEGAPCM_ROM),
        7u32 => Some(RomIndex::OKIM6295_ROM),
        8u32 => Some(RomIndex::C140_ROM),
        _ => None,
    }
}

/// Decode a numeric ROM-region code from the host boundary.
pub fn get_rom_index(rom_index: u32) -> (r: Option<RomIndex>)
    ensures
        r == spec_rom_index(rom_index),
{
    match rom_index {
        0 => Some(RomIndex::YM2608_DELTA_T),
        1 => Some(RomIndex::YM2610_ADPCM),
        2 => Some(RomIndex::YM2610_DELTA_T),
        3 => Some(RomIndex::YMF278B_ROM),
        4 => Some(RomIndex::YMF278B_RAM),
        5 => Some(RomIndex::Y8950_ROM),
        6 => Some(RomIndex::SEGAPCM_ROM),
        7 => Some(RomIndex::OKIM6295_ROM),
        8 => Some(RomIndex::C140_ROM),
        _ => None,
    }
}

/// The ROM bus convention encoded by a numeric host code. Code `0` means
/// "no special bus"; an unknown code is a decode failure.
pub open spec fn spec_rom_bus_type(code: u32) -> Option<Option<RomBusType>> {
    match code {
        0u32 => Some(None),
        1u32 => Some(Some(RomBusType::C140_TYPE_SYSTEM2)),
        2u32 => Some(Some(RomBusType::C140_TYPE_SYSTEM21)),
        3u32 => Some(Some(RomBusType::C219_TYPE_ASIC219)),
        4u32 => Some(Some(RomBusType::OKIM6295)),
        _ => None,
    }
}

/// Decode a numeric ROM-bus code from the host boundary.
pub fn get_rom_bus_type(rom_bus_type: u32) -> (r: Option<Option<RomBusType>>)
    ensures
        r == spec_rom_bus_type(rom_bus_type),
{
    match rom_bus_type {
        0 => Some(None),
        1 => Some(Some(RomBusType::C140_TYPE_SYSTEM2)),
        2 => Some(Some(RomBusType::C140_TYPE_SYSTEM21)),
        3 => Some(Some(RomBusType::C219_TYPE_ASIC219)),
        4 => Some(Some(RomBusType::OKIM6295)),
        _ => None,
    }
}

/// A distinct numeric code for each chip type, used to key the device
/// table.
pub open spec fn spec_chip_type_code(t: SoundChipType) -> usize {
    match t {
        SoundChipType::YM2149 => 0usize,
        SoundChipType::YM2151 => 1usize,
        SoundChipType::YM2203 => 2usize,
        SoundChipType::YM2413 => 3usize,
        SoundChipType::YM2608 => 4usize,
        SoundChipType::YM2610 => 5usize,
        SoundChipType::YM2612 => 6usize,
        SoundChipType::YM3526 => 7usize,
        SoundChipType::Y8950 => 8usize,
        SoundChipType::YM3812 => 9usize,
        SoundChipType::YMF262 => 10usize,
        SoundChipType::YMF278B => 11usize,
        SoundChipType::SEGAPSG => 12usize,
        SoundChipType::SN76489 => 13usize,
        SoundChipType::PWM => 14usize,
        SoundChipType::SEGAPCM => 15usize,
        SoundChipType::OKIM6258 => 16usize,
        SoundChipType::C140 => 17usize,
        SoundChipType::C219 => 18usize,
        SoundChipType::OKIM6295 => 19usize,
    }
}

/// Two distinct chip types never share a code.
pub proof fn lemma_chip_type_code_injective(a: SoundChipType, b: SoundChipType)
    ensures
        spec_chip_type_code(a) == spec_chip_type_code(b) ==> a == b,
{
}

/// The numeric code of a chip type.
pub fn chip_type_code(t: SoundChipType) -> (r: usize)
    ensures
        r == spec_chip_type_code(t),
{
    match t {
        SoundChipType::YM2149 => 0,
        SoundChipType::YM2151 => 1,
        SoundChipType::YM2203 => 2,
        SoundChipType::YM2413 => 3,
        SoundChipType::YM2608 => 4,
        SoundChipType::YM2610 => 5,
        SoundChipType::YM2612 => 6,
        SoundChipType::YM3526 => 7,
        SoundChipType::Y8950 => 8,
        SoundChipType::YM3812 => 9,
        SoundChipType::YMF262 => 10,
        SoundChipType::YMF278B => 11,
        SoundChipType::SEGAPSG => 12,
        SoundChipType::SN76489 => 13,
        SoundChipType::PWM => 14,
        SoundChipType::SEGAPCM => 15,
        SoundChipType::OKIM6258 => 16,
        SoundChipType::C140 => 17,
        SoundChipType::C219 => 18,
        SoundChipType::OKIM6295 => 19,
    }
}

/// The ROM regions a freshly created chip of type `t` owns, in
/// registration order; chips without sample ROMs own none.
pub open spec fn spec_default_rom_indexes(t: SoundChipType) -> Seq<RomIndex> {
    match t {
        SoundChipType::YM2608 => seq![RomIndex::YM2608_DELTA_T],
        SoundChipType::YM2610 => seq![RomIndex::YM2610_ADPCM, RomIndex::YM2610_DELTA_T],
        SoundChipType::Y8950 => seq![RomIndex::Y8950_ROM],
        SoundChipType::YMF278B => seq![RomIndex::YMF278B_ROM, RomIndex::YMF278B_RAM],
        SoundChipType::SEGAPCM => seq![RomIndex::SEGAPCM_ROM],
        SoundChipType::OKIM6295 => seq![RomIndex::OKIM6295_ROM],
        SoundChipType::C140 => seq![RomIndex::C140_ROM],
        SoundChipType::C219 => seq![RomIndex::C140_ROM],
        _ => Seq::<RomIndex>::empty(),
    }
}

/// Build the default ROM-region list for a chip type; `None` when the
/// chip owns no sample ROM.
pub fn default_rom_indexes(t: SoundChipType) -> (r: Option<Vec<RomIndex>>)
    ensures
        r matches Some(list) ==> list@ == spec_default_rom_indexes(t) && list@.len() > 0,
        r is None ==> spec_default_rom_indexes(t).len() == 0,
{
    let list: Option<Vec<RomIndex>> = match t {
        SoundChipType::YM2608 => Some(vec![RomIndex::YM2608_DELTA_T]),
        SoundChipType::YM2610 => Some(vec![RomIndex::YM2610_ADPCM, RomIndex::YM2610_DELTA_T]),
        SoundChipType::Y8950 => Some(vec![RomIndex::Y8950_ROM]),
        SoundChipType::YMF278B => Some(vec![RomIndex::YMF278B_ROM, RomIndex::YMF278B_RAM]),
        SoundChipType::SEGAPCM => Some(vec![RomIndex::SEGAPCM_ROM]),
        SoundChipType::OKIM6295 => Some(vec![RomIndex::OKIM6295_ROM]),
        SoundChipType::C140 => Some(vec![RomIndex::C140_ROM]),
        SoundChipType::C219 => Some(vec![RomIndex::C140_ROM]),
        _ => None,
    };
    proof {
        match &list {
            Some(l) => {
                assert(l@ =~= spec_default_rom_indexes(t));
            },
            None => {
            },
        }
    }
    list
}

/// The capability contract a concrete chip model implements.
///
/// Chip models are external collaborators: the engine is polymorphic over
/// this operation set and never inspects chip internals. A model produces
/// one native-domain stereo sample per `tick`; samples are fixed-point
/// values with nominal full scale `-32768..=32767` (headroom above that is
/// tolerated and saturated at the output boundary).
pub trait SoundChip {
    /// Build an uninitialized model of the requested chip type.
    fn create(sound_chip_type: SoundChipType) -> Self where Self: core::marker::Sized;

    /// Initialize the model for the given master clock; returns the chip's
    /// native sample rate in Hz.
    fn init(&mut self, clock: u32) -> u32;

    /// Deliver one register write. A chip that re-derives its native rate
    /// from a register write returns the new rate so the hosting device can
    /// retune its resampler; otherwise it returns `None`.
    fn write(&mut self, sound_chip_index: usize, port: u32, data: u32) -> Option<u32>;

    /// Synthesize exactly one native-domain stereo sample, reading ROM data
    /// through the shared banks as needed.
    fn tick(&mut self, sound_chip_index: usize, rom_bank: &RomSetBank) -> (i32, i32);

    /// Learn that a new range was appended to one of the chip's ROM
    /// regions; `index_no` is the assigned range index within that region.
    fn notify_add_rom(&mut self, rom_index: RomIndex, index_no: usize);

    /// Select the ROM bus addressing convention, or none for the default.
    fn set_rom_bus(&mut self, rom_bus_type: Option<RomBusType>);
}

} // verus!
