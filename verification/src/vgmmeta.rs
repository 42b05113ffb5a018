//! VGM command-log metadata: the version-gated header layout.
//!
//! A VGM file starts with a fixed 256-byte little-endian header whose
//! usable fields depend on the file's version; newer revisions may add
//! an extra header with per-chip clocks and volumes. The parser works on
//! a zero-padded copy of the header region, so a file whose data starts
//! early never leaks command bytes into header fields.

use vstd::prelude::*;

verus! {

/// The fixed VGM header, one field per documented slot.
pub struct VgmHeader {
    pub eof: u32,
    pub version: u32,
    pub clock_sn76489: u32,
    pub clock_ym2413: u32,
    pub offset_gd3: u32,
    pub total_samples: u32,
    pub offset_loop: u32,
    pub loop_samples: u32,
    pub rate: u32,
    pub sn76489_fb: u16,
    pub sn76489_w: u8,
    pub sn76489_f: u8,
    pub clock_ym2612: u32,
    pub clock_ym2151: u32,
    pub vgm_data_offset: u32,
    pub clock_sega_pcm: u32,
    pub spcm_interface: u32,
    pub clock_rf5c68: u32,
    pub clock_ym2203: u32,
    pub clock_ym2608: u32,
    pub clock_ym2610_b: u32,
    pub clock_ym3812: u32,
    pub clock_ym3526: u32,
    pub clock_y8950: u32,
    pub clock_ymf262: u32,
    pub clock_ymf278_b: u32,
    pub clock_ym271: u32,
    pub clock_ymz280b: u32,
    pub clock_rf5c164: u32,
    pub clock_pwm: u32,
    pub clock_ay8910: u32,
    pub ay8910_flag: u32,
    pub volume_modifier: u8,
    pub reserved01: u8,
    pub loop_base: u8,
    pub loop_modifier: u8,
    pub clock_gb_dmg: u32,
    pub clock_nes_apu: u32,
    pub clock_multi_pcm: u32,
    pub clock_upd7759: u32,
    pub clock_okim6258: u32,
    pub okmi6258_flag: u8,
    pub k054539_flag: u8,
    pub c140_chip_type: u8,
    pub reserved02: u8,
    pub clock_okim6295: u32,
    pub clock_k051649: u32,
    pub clock_k054539: u32,
    pub clock_huc6280: u32,
    pub clock_c140: u32,
    pub clock_k053260: u32,
    pub clock_pokey: u32,
    pub clock_qsound: u32,
    pub clock_scsp: u32,
    pub extra_hdr_ofs: u32,
    pub clock_wonder_swan: u32,
    pub clock_vsu: u32,
    pub clock_saa1099: u32,
    pub clock_es5503: u32,
    pub clock_es5506: u32,
    pub es5503_amount_channel: u8,
    pub es5506_amount_channel: u8,
    pub c352_clock_divider: u8,
    pub reserved03: u8,
    pub clock_x1_010: u32,
    pub clock_c352: u32,
    pub clock_ga20: u32,
    pub reserved04: u32,
    pub reserved05: u32,
    pub reserved06: u32,
    pub reserved07: u32,
    pub reserved08: u32,
    pub reserved09: u32,
    pub reserved10: u32,
    pub extra_hdr: ExtraHeader,
}

/// The optional extra header: per-chip clock and volume overrides.
pub struct ExtraHeader {
    pub header_size: u32,
    pub chip_clock_ofs: u32,
    pub chip_volume_ofs: u32,
    pub chip_clock: Vec<ChipClock>,
    pub chip_volume: Vec<ChipVolume>,
}

/// One extra-header clock entry: a second chip's clock.
pub struct ChipClock {
    pub chip_id: u8,
    pub clock_second_chip: u32,
}

/// One extra-header volume entry.
pub struct ChipVolume {
    pub chip_id: u8,
    pub flags: u8,
    pub volume: u16,
}

/// The little-endian 16-bit value at `at`.
pub open spec fn spec_le16(s: Seq<u8>, at: int) -> u16
    recommends
        0 <= at,
        at + 2 <= s.len(),
{
    (s[at] + s[at + 1] * 0x100) as u16
}

/// The little-endian 32-bit value at `at`.
pub open spec fn spec_le32(s: Seq<u8>, at: int) -> u32
    recommends
        0 <= at,
        at + 4 <= s.len(),
{
    (s[at] + s[at + 1] * 0x100 + s[at + 2] * 0x1_0000 + s[at + 3] * 0x100_0000) as u32
}

/// Read the little-endian 16-bit value at `at`.
fn read_le16(data: &[u8], at: usize) -> (r: u16)
    requires
        at + 2 <= data@.len(),
    ensures
        r == spec_le16(data@, at as int),
{
    data[at] as u16 + data[at + 1] as u16 * 0x100
}

/// Read the little-endian 32-bit value at `at`.
fn read_le32(data: &[u8], at: usize) -> (r: u32)
    requires
        at + 4 <= data@.len(),
    ensures
        r == spec_le32(data@, at as int),
{
    data[at] as u32 + data[at + 1] as u32 * 0x100 + data[at + 2] as u32 * 0x1_0000 + data[at
        + 3] as u32 * 0x100_0000
}

/// Whether all eight nibbles of the four version bytes are decimal
/// digits — a VGM version is binary-coded decimal, and a malformed one
/// decodes to zero.
pub open spec fn spec_bcd_ok(s: Seq<u8>, at: int) -> bool
    recommends
        0 <= at,
        at + 4 <= s.len(),
{
    &&& s[at] % 16 <= 9 && s[at] / 16 <= 9
    &&& s[at + 1] % 16 <= 9 && s[at + 1] / 16 <= 9
    &&& s[at + 2] % 16 <= 9 && s[at + 2] / 16 <= 9
    &&& s[at + 3] % 16 <= 9 && s[at + 3] / 16 <= 9
}

/// The version number encoded by the four BCD bytes at `at` (stored
/// least-significant byte first), or `0` when a nibble is not decimal.
pub open spec fn spec_bcd_version(s: Seq<u8>, at: int) -> u32
    recommends
        0 <= at,
        at + 4 <= s.len(),
{
    if spec_bcd_ok(s, at) {
        ((((((s[at + 3] / 16) * 10 + s[at + 3] % 16) * 10 + s[at + 2] / 16) * 10 + s[at + 2] % 16)
            * 10 + s[at + 1] / 16) * 10 * 100 + ((s[at + 1] % 16) * 10 + s[at] / 16) * 10 + s[at]
            % 16) as u32
    } else {
        0u32
    }
}

/// Decode the BCD version field at `at`.
fn read_bcd_version(data: &[u8], at: usize) -> (r: u32)
    requires
        at + 4 <= data@.len(),
    ensures
        r == spec_bcd_version(data@, at as int),
{
    let b0 = data[at];
    let b1 = data[at + 1];
    let b2 = data[at + 2];
    let b3 = data[at + 3];
    if b0 % 16 > 9 || b0 / 16 > 9 || b1 % 16 > 9 || b1 / 16 > 9 || b2 % 16 > 9 || b2 / 16 > 9 || b3
        % 16 > 9 || b3 / 16 > 9 {
        return 0;
    }
    let high: u32 = ((((b3 as u32 / 16) * 10 + b3 as u32 % 16) * 10 + b2 as u32 / 16) * 10 + b2
        as u32 % 16) * 10 + b1 as u32 / 16;
    high * 10 * 100 + ((b1 as u32 % 16) * 10 + b0 as u32 / 16) * 10 + b0 as u32 % 16
}

/// Whether the 256-byte header region starts with the `Vgm ` tag.
pub open spec fn spec_vgm_tag_ok(s: Seq<u8>) -> bool
    recommends
        s.len() >= 4,
{
    s[0] == 0x56 && s[1] == 0x67 && s[2] == 0x6d && s[3] == 0x20
}

/// Whether a parsed header carries exactly the fields the 256-byte
/// region `s` encodes, each gated by the file's version: a field from a
/// revision newer than the file stays zero.
pub open spec fn spec_header_matches(h: VgmHeader, s: Seq<u8>) -> bool
    recommends
        s.len() >= 0x100,
{
    let v = spec_bcd_version(s, 0x08);
    &&& h.version == (if v >= 100 { v } else { 0u32 })
    &&& h.eof == (if v >= 100 { spec_le32(s, 0x04) } else { 0u32 })
    &&& h.clock_sn76489 == (if v >= 100 { spec_le32(s, 0x0c) } else { 0u32 })
    &&& h.clock_ym2413 == (if v >= 100 { spec_le32(s, 0x10) } else { 0u32 })
    &&& h.offset_gd3 == (if v >= 100 { spec_le32(s, 0x14) } else { 0u32 })
    &&& h.total_samples == (if v >= 100 { spec_le32(s, 0x18) } else { 0u32 })
    &&& h.offset_loop == (if v >= 100 { spec_le32(s, 0x1c) } else { 0u32 })
    &&& h.loop_samples == (if v >= 100 { spec_le32(s, 0x20) } else { 0u32 })
    &&& h.rate == (if v >= 101 { spec_le32(s, 0x24) } else { 0u32 })
    &&& h.sn76489_fb == (if v >= 110 { spec_le16(s, 0x28) } else { 0u16 })
    &&& h.sn76489_w == (if v >= 110 { s[0x2a] } else { 0u8 })
    &&& h.sn76489_f == (if v >= 151 { s[0x2b] } else { 0u8 })
    &&& h.clock_ym2612 == (if v >= 110 { spec_le32(s, 0x2c) } else { 0u32 })
    &&& h.clock_ym2151 == (if v >= 110 { spec_le32(s, 0x30) } else { 0u32 })
    &&& h.vgm_data_offset == (if v >= 150 { spec_le32(s, 0x34) } else { 0u32 })
    &&& h.clock_sega_pcm == (if v >= 151 { spec_le32(s, 0x38) } else { 0u32 })
    &&& h.spcm_interface == (if v >= 151 { spec_le32(s, 0x3c) } else { 0u32 })
    &&& h.clock_rf5c68 == (if v >= 151 { spec_le32(s, 0x40) } else { 0u32 })
    &&& h.clock_ym2203 == (if v >= 151 { spec_le32(s, 0x44) } else { 0u32 })
    &&& h.clock_ym2608 == (if v >= 151 { spec_le32(s, 0x48) } else { 0u32 })
    &&& h.clock_ym2610_b == (if v >= 151 { spec_le32(s, 0x4c) } else { 0u32 })
    &&& h.clock_ym3812 == (if v >= 151 { spec_le32(s, 0x50) } else { 0u32 })
    &&& h.clock_ym3526 == (if v >= 151 { spec_le32(s, 0x54) } else { 0u32 })
    &&& h.clock_y8950 == (if v >= 151 { spec_le32(s, 0x58) } else { 0u32 })
    &&& h.clock_ymf262 == (if v >= 151 { spec_le32(s, 0x5c) } else { 0u32 })
    &&& h.clock_ymf278_b == (if v >= 151 { spec_le32(s, 0x60) } else { 0u32 })
    &&& h.clock_ym271 == (if v >= 151 { spec_le32(s, 0x64) } else { 0u32 })
    &&& h.clock_ymz280b == (if v >= 151 { spec_le32(s, 0x68) } else { 0u32 })
    &&& h.clock_rf5c164 == (if v >= 151 { spec_le32(s, 0x6c) } else { 0u32 })
    &&& h.clock_pwm == (if v >= 151 { spec_le32(s, 0x70) } else { 0u32 })
    &&& h.clock_ay8910 == (if v >= 151 { spec_le32(s, 0x74) } else { 0u32 })
    &&& h.ay8910_flag == (if v >= 151 { spec_le32(s, 0x78) } else { 0u32 })
    &&& h.volume_modifier == (if v >= 160 { s[0x7c] } else { 0u8 })
    &&& h.reserved01 == (if v >= 160 { s[0x7d] } else { 0u8 })
    &&& h.loop_base == (if v >= 160 { s[0x7e] } else { 0u8 })
    &&& h.loop_modifier == (if v >= 151 { s[0x7f] } else { 0u8 })
    &&& h.clock_gb_dmg == (if v >= 161 { spec_le32(s, 0x80) } else { 0u32 })
    &&& h.clock_nes_apu == (if v >= 161 { spec_le32(s, 0x84) } else { 0u32 })
    &&& h.clock_multi_pcm == (if v >= 161 { spec_le32(s, 0x88) } else { 0u32 })
    &&& h.clock_upd7759 == (if v >= 161 { spec_le32(s, 0x8c) } else { 0u32 })
    &&& h.clock_okim6258 == (if v >= 161 { spec_le32(s, 0x90) } else { 0u32 })
    &&& h.okmi6258_flag == (if v >= 161 { s[0x94] } else { 0u8 })
    &&& h.k054539_flag == (if v >= 161 { s[0x95] } else { 0u8 })
    &&& h.c140_chip_type == (if v >= 161 { s[0x96] } else { 0u8 })
    &&& h.reserved02 == (if v >= 161 { s[0x97] } else { 0u8 })
    &&& h.clock_okim6295 == (if v >= 161 { spec_le32(s, 0x98) } else { 0u32 })
    &&& h.clock_k051649 == (if v >= 161 { spec_le32(s, 0x9c) } else { 0u32 })
    &&& h.clock_k054539 == (if v >= 161 { spec_le32(s, 0xa0) } else { 0u32 })
    &&& h.clock_huc6280 == (if v >= 161 { spec_le32(s, 0xa4) } else { 0u32 })
    &&& h.clock_c140 == (if v >= 161 { spec_le32(s, 0xa8) } else { 0u32 })
    &&& h.clock_k053260 == (if v >= 161 { spec_le32(s, 0xac) } else { 0u32 })
    &&& h.clock_pokey == (if v >= 161 { spec_le32(s, 0xb0) } else { 0u32 })
    &&& h.clock_qsound == (if v >= 161 { spec_le32(s, 0xb4) } else { 0u32 })
    &&& h.clock_scsp == (if v >= 171 { spec_le32(s, 0xb8) } else { 0u32 })
    &&& h.extra_hdr_ofs == (if v >= 170 { spec_le32(s, 0xbc) } else { 0u32 })
    &&& h.clock_wonder_swan == (if v >= 171 { spec_le32(s, 0xc0) } else { 0u32 })
    &&& h.clock_vsu == (if v >= 171 { spec_le32(s, 0xc4) } else { 0u32 })
    &&& h.clock_saa1099 == (if v >= 171 { spec_le32(s, 0xc8) } else { 0u32 })
    &&& h.clock_es5503 == (if v >= 171 { spec_le32(s, 0xcc) } else { 0u32 })
    &&& h.clock_es5506 == (if v >= 171 { spec_le32(s, 0xd0) } else { 0u32 })
    &&& h.es5503_amount_channel == (if v >= 171 { s[0xd4] } else { 0u8 })
    &&& h.es5506_amount_channel == (if v >= 171 { s[0xd5] } else { 0u8 })
    &&& h.c352_clock_divider == (if v >= 171 { s[0xd6] } else { 0u8 })
    &&& h.reserved03 == (if v >= 171 { s[0xd7] } else { 0u8 })
    &&& h.clock_x1_010 == (if v >= 171 { spec_le32(s, 0xd8) } else { 0u32 })
    &&& h.clock_c352 == (if v >= 171 { spec_le32(s, 0xdc) } else { 0u32 })
    &&& h.clock_ga20 == (if v >= 171 { spec_le32(s, 0xe0) } else { 0u32 })
    &&& h.reserved04 == (if v >= 171 { spec_le32(s, 0xe4) } else { 0u32 })
    &&& h.reserved05 == (if v >= 171 { spec_le32(s, 0xe8) } else { 0u32 })
    &&& h.reserved06 == (if v >= 171 { spec_le32(s, 0xec) } else { 0u32 })
    &&& h.reserved07 == (if v >= 171 { spec_le32(s, 0xf0) } else { 0u32 })
    &&& h.reserved08 == (if v >= 171 { spec_le32(s, 0xf4) } else { 0u32 })
    &&& h.reserved09 == (if v >= 171 { spec_le32(s, 0xf8) } else { 0u32 })
    &&& h.reserved10 == (if v >= 171 { spec_le32(s, 0xfc) } else { 0u32 })
}

/// Whether an extra header is absent: zero offsets and empty lists.
pub open spec fn spec_extra_empty(e: ExtraHeader) -> bool {
    &&& e.header_size == 0
    &&& e.chip_clock_ofs == 0
    &&& e.chip_volume_ofs == 0
    &&& e.chip_clock@.len() == 0
    &&& e.chip_volume@.len() == 0
}

/// Parse the fixed 256-byte header region; `None` when the `Vgm ` tag
/// is missing. Since the region is always exactly 256 bytes, the tag is
/// the only way this parse can fail.
fn parse_vgm_header(data: &[u8]) -> (r: Option<VgmHeader>)
    requires
        data@.len() == 0x100,
    ensures
        r is Some <==> spec_vgm_tag_ok(data@),
        r matches Some(h) ==> spec_header_matches(h, data@) && spec_extra_empty(h.extra_hdr),
{
    if !(data[0] == 0x56 && data[1] == 0x67 && data[2] == 0x6d && data[3] == 0x20) {
        return None;
    }
    let version = read_bcd_version(data, 0x08);
    Some(
        VgmHeader {
            version: if version >= 100 {
                version
            } else {
                0
            },
            eof: if version >= 100 {
                read_le32(data, 0x04)
            } else {
                0
            },
            clock_sn76489: if version >= 100 {
                read_le32(data, 0x0c)
            } else {
                0
            },
            clock_ym2413: if version >= 100 {
                read_le32(data, 0x10)
            } else {
                0
            },
            offset_gd3: if version >= 100 {
                read_le32(data, 0x14)
            } else {
                0
            },
            total_samples: if version >= 100 {
                read_le32(data, 0x18)
            } else {
                0
            },
            offset_loop: if version >= 100 {
                read_le32(data, 0x1c)
            } else {
                0
            },
            loop_samples: if version >= 100 {
                read_le32(data, 0x20)
            } else {
                0
            },
            rate: if version >= 101 {
                read_le32(data, 0x24)
            } else {
                0
            },
            sn76489_fb: if version >= 110 {
                read_le16(data, 0x28)
            } else {
                0
            },
            sn76489_w: if version >= 110 {
                data[0x2a]
            } else {
                0
            },
            sn76489_f: if version >= 151 {
                data[0x2b]
            } else {
                0
            },
            clock_ym2612: if version >= 110 {
                read_le32(data, 0x2c)
            } else {
                0
            },
            clock_ym2151: if version >= 110 {
                read_le32(data, 0x30)
            } else {
                0
            },
            vgm_data_offset: if version >= 150 {
                read_le32(data, 0x34)
            } else {
                0
            },
            clock_sega_pcm: if version >= 151 {
                read_le32(data, 0x38)
            } else {
                0
            },
            spcm_interface: if version >= 151 {
                read_le32(data, 0x3c)
            } else {
                0
            },
            clock_rf5c68: if version >= 151 {
                read_le32(data, 0x40)
            } else {
                0
            },
            clock_ym2203: if version >= 151 {
                read_le32(data, 0x44)
            } else {
                0
            },
            clock_ym2608: if version >= 151 {
                read_le32(data, 0x48)
            } else {
                0
            },
            clock_ym2610_b: if version >= 151 {
                read_le32(data, 0x4c)
            } else {
                0
            },
            clock_ym3812: if version >= 151 {
                read_le32(data, 0x50)
            } else {
                0
            },
            clock_ym3526: if version >= 151 {
                read_le32(data, 0x54)
            } else {
                0
            },
            clock_y8950: if version >= 151 {
                read_le32(data, 0x58)
            } else {
                0
            },
            clock_ymf262: if version >= 151 {
                read_le32(data, 0x5c)
            } else {
                0
            },
            clock_ymf278_b: if version >= 151 {
                read_le32(data, 0x60)
            } else {
                0
            },
            clock_ym271: if version >= 151 {
                read_le32(data, 0x64)
            } else {
                0
            },
            clock_ymz280b: if version >= 151 {
                read_le32(data, 0x68)
            } else {
                0
            },
            clock_rf5c164: if version >= 151 {
                read_le32(data, 0x6c)
            } else {
                0
            },
            clock_pwm: if version >= 151 {
                read_le32(data, 0x70)
            } else {
                0
            },
            clock_ay8910: if version >= 151 {
                read_le32(data, 0x74)
            } else {
                0
            },
            ay8910_flag: if version >= 151 {
                read_le32(data, 0x78)
            } else {
                0
            },
            volume_modifier: if version >= 160 {
                data[0x7c]
            } else {
                0
            },
            reserved01: if version >= 160 {
                data[0x7d]
            } else {
                0
            },
            loop_base: if version >= 160 {
                data[0x7e]
            } else {
                0
            },
            loop_modifier: if version >= 151 {
                data[0x7f]
            } else {
                0
            },
            clock_gb_dmg: if version >= 161 {
                read_le32(data, 0x80)
            } else {
                0
            },
            clock_nes_apu: if version >= 161 {
                read_le32(data, 0x84)
            } else {
                0
            },
            clock_multi_pcm: if version >= 161 {
                read_le32(data, 0x88)
            } else {
                0
            },
            clock_upd7759: if version >= 161 {
                read_le32(data, 0x8c)
            } else {
                0
            },
            clock_okim6258: if version >= 161 {
                read_le32(data, 0x90)
            } else {
                0
            },
            okmi6258_flag: if version >= 161 {
                data[0x94]
            } else {
                0
            },
            k054539_flag: if version >= 161 {
                data[0x95]
            } else {
                0
            },
            c140_chip_type: if version >= 161 {
                data[0x96]
            } else {
                0
            },
            reserved02: if version >= 161 {
                data[0x97]
            } else {
                0
            },
            clock_okim6295: if version >= 161 {
                read_le32(data, 0x98)
            } else {
                0
            },
            clock_k051649: if version >= 161 {
                read_le32(data, 0x9c)
            } else {
                0
            },
            clock_k054539: if version >= 161 {
                read_le32(data, 0xa0)
            } else {
                0
            },
            clock_huc6280: if version >= 161 {
                read_le32(data, 0xa4)
            } else {
                0
            },
            clock_c140: if version >= 161 {
                read_le32(data, 0xa8)
            } else {
                0
            },
            clock_k053260: if version >= 161 {
                read_le32(data, 0xac)
            } else {
                0
            },
            clock_pokey: if version >= 161 {
                read_le32(data, 0xb0)
            } else {
                0
            },
            clock_qsound: if version >= 161 {
                read_le32(data, 0xb4)
            } else {
                0
            },
            clock_scsp: if version >= 171 {
                read_le32(data, 0xb8)
            } else {
                0
            },
            extra_hdr_ofs: if version >= 170 {
                read_le32(data, 0xbc)
            } else {
                0
            },
            clock_wonder_swan: if version >= 171 {
                read_le32(data, 0xc0)
            } else {
                0
            },
            clock_vsu: if version >= 171 {
                read_le32(data, 0xc4)
            } else {
                0
            },
            clock_saa1099: if version >= 171 {
                read_le32(data, 0xc8)
            } else {
                0
            },
            clock_es5503: if version >= 171 {
                read_le32(data, 0xcc)
            } else {
                0
            },
            clock_es5506: if version >= 171 {
                read_le32(data, 0xd0)
            } else {
                0
            },
            es5503_amount_channel: if version >= 171 {
                data[0xd4]
            } else {
                0
            },
            es5506_amount_channel: if version >= 171 {
                data[0xd5]
            } else {
                0
            },
            c352_clock_divider: if version >= 171 {
                data[0xd6]
            } else {
                0
            },
            reserved03: if version >= 171 {
                data[0xd7]
            } else {
                0
            },
            clock_x1_010: if version >= 171 {
                read_le32(data, 0xd8)
            } else {
                0
            },
            clock_c352: if version >= 171 {
                read_le32(data, 0xdc)
            } else {
                0
            },
            clock_ga20: if version >= 171 {
                read_le32(data, 0xe0)
            } else {
                0
            },
            reserved04: if version >= 171 {
                read_le32(data, 0xe4)
            } else {
                0
            },
            reserved05: if version >= 171 {
                read_le32(data, 0xe8)
            } else {
                0
            },
            reserved06: if version >= 171 {
                read_le32(data, 0xec)
            } else {
                0
            },
            reserved07: if version >= 171 {
                read_le32(data, 0xf0)
            } else {
                0
            },
            reserved08: if version >= 171 {
                read_le32(data, 0xf4)
            } else {
                0
            },
            reserved09: if version >= 171 {
                read_le32(data, 0xf8)
            } else {
                0
            },
            reserved10: if version >= 171 {
                read_le32(data, 0xfc)
            } else {
                0
            },
            extra_hdr: ExtraHeader {
                header_size: 0,
                chip_clock_ofs: 0,
                chip_volume_ofs: 0,
                chip_clock: Vec::new(),
                chip_volume: Vec::new(),
            },
        },
    )
}

/// The clock entries encoded at `base`: five bytes each, a chip id and
/// a little-endian clock.
pub open spec fn spec_chip_clocks(s: Seq<u8>, base: int, n: int) -> Seq<ChipClock> {
    Seq::new(
        n as nat,
        |j: int|
            ChipClock { chip_id: s[base + 5 * j], clock_second_chip: spec_le32(s, base + 5 * j + 1) },
    )
}

/// The volume entries encoded at `base`: four bytes each, a chip id,
/// flags, and a little-endian volume.
pub open spec fn spec_chip_volumes(s: Seq<u8>, base: int, n: int) -> Seq<ChipVolume> {
    Seq::new(
        n as nat,
        |j: int|
            ChipVolume {
                chip_id: s[base + 4 * j],
                flags: s[base + 4 * j + 1],
                volume: spec_le16(s, base + 4 * j + 2),
            },
    )
}

/// Whether a clock list headed at `at` fits inside `s`: one count byte,
/// then five bytes per entry.
pub open spec fn spec_clock_list_ok(s: Seq<u8>, at: int) -> bool {
    &&& 0 <= at < s.len()
    &&& at + 1 + 5 * (s[at] as int) <= s.len()
}

/// Whether a volume list headed at `at` fits inside `s`.
pub open spec fn spec_volume_list_ok(s: Seq<u8>, at: int) -> bool {
    &&& 0 <= at < s.len()
    &&& at + 1 + 4 * (s[at] as int) <= s.len()
}

/// Parse the clock list headed at `at`: the count byte, then that many
/// entries. `None` exactly when the list does not fit in the data.
fn parse_extra_header_clock(data: &[u8], at: usize) -> (r: Option<Vec<ChipClock>>)
    ensures
        r is Some <==> spec_clock_list_ok(data@, at as int),
        r matches Some(v) ==> v@ == spec_chip_clocks(
            data@,
            at + 1,
            data@[at as int] as int,
        ),
{
    let len = data.len();
    if at >= len {
        return None;
    }
    let count = data[at] as usize;
    if count > (len - at - 1) / 5 {
        return None;
    }
    let mut clocks: Vec<ChipClock> = Vec::new();
    let mut j: usize = 0;
    while j < count
        invariant
            j <= count,
            at < data@.len(),
            count == data@[at as int] as int,
            at + 1 + 5 * count <= data@.len(),
            at + 1 + 5 * count <= usize::MAX,
            clocks@ == spec_chip_clocks(data@, at as int + 1, j as int),
        decreases count - j,
    {
        let base = at + 1 + 5 * j;
        let chip_id = data[base];
        let clock_second_chip = read_le32(data, base + 1);
        clocks.push(ChipClock { chip_id, clock_second_chip });
        proof {
            assert(clocks@ =~= spec_chip_clocks(data@, at as int + 1, j as int + 1));
        }
        j = j + 1;
    }
    Some(clocks)
}

/// Parse the volume list headed at `at`. `None` exactly when the list
/// does not fit in the data.
fn parse_extra_header_volume(data: &[u8], at: usize) -> (r: Option<Vec<ChipVolume>>)
    ensures
        r is Some <==> spec_volume_list_ok(data@, at as int),
        r matches Some(v) ==> v@ == spec_chip_volumes(
            data@,
            at + 1,
            data@[at as int] as int,
        ),
{
    let len = data.len();
    if at >= len {
        return None;
    }
    let count = data[at] as usize;
    if count > (len - at - 1) / 4 {
        return None;
    }
    let mut volumes: Vec<ChipVolume> = Vec::new();
    let mut j: usize = 0;
    while j < count
        invariant
            j <= count,
            at < data@.len(),
            count == data@[at as int] as int,
            at + 1 + 4 * count <= data@.len(),
            at + 1 + 4 * count <= usize::MAX,
            volumes@ == spec_chip_volumes(data@, at as int + 1, j as int),
        decreases count - j,
    {
        let base = at + 1 + 4 * j;
        let chip_id = data[base];
        let flags = data[base + 1];
        let volume = read_le16(data, base + 2);
        volumes.push(ChipVolume { chip_id, flags, volume });
        proof {
            assert(volumes@ =~= spec_chip_volumes(data@, at as int + 1, j as int + 1));
        }
        j = j + 1;
    }
    Some(volumes)
}

/// The extra header's size field at `at`.
pub open spec fn spec_extra_size(s: Seq<u8>, at: int) -> u32 {
    spec_le32(s, at)
}

/// The extra header's clock-list offset: present only when the header
/// is large enough to hold it.
pub open spec fn spec_extra_clock_ofs(s: Seq<u8>, at: int) -> u32 {
    if spec_extra_size(s, at) >= 0x08 {
        spec_le32(s, at + 4)
    } else {
        0u32
    }
}

/// The extra header's volume-list offset: present only when the header
/// is large enough to hold it.
pub open spec fn spec_extra_volume_ofs(s: Seq<u8>, at: int) -> u32 {
    if spec_extra_size(s, at) >= 0x0c {
        spec_le32(s, at + 8)
    } else {
        0u32
    }
}

/// Whether the extra header at `at` — size, offsets, and both gated
/// lists — fits inside `s`.
pub open spec fn spec_extra_ok(s: Seq<u8>, at: int) -> bool {
    &&& at + 4 <= s.len()
    &&& spec_extra_size(s, at) >= 0x08 ==> at + 8 <= s.len()
    &&& spec_extra_size(s, at) >= 0x0c ==> at + 12 <= s.len()
    &&& spec_extra_clock_ofs(s, at) != 0 ==> spec_clock_list_ok(
        s,
        at + 4 + spec_extra_clock_ofs(s, at),
    )
    &&& spec_extra_volume_ofs(s, at) != 0 ==> spec_volume_list_ok(
        s,
        at + 8 + spec_extra_volume_ofs(s, at),
    )
}

/// Whether a parsed extra header carries exactly what `s` encodes at
/// `at`: the size, the offsets, and the two lists (empty when their
/// offset is zero).
pub open spec fn spec_extra_matches(e: ExtraHeader, s: Seq<u8>, at: int) -> bool {
    let clock_ofs = spec_extra_clock_ofs(s, at);
    let volume_ofs = spec_extra_volume_ofs(s, at);
    &&& e.header_size == spec_extra_size(s, at)
    &&& e.chip_clock_ofs == clock_ofs
    &&& e.chip_volume_ofs == volume_ofs
    &&& e.chip_clock@ == (if clock_ofs != 0 {
        spec_chip_clocks(
            s,
            at + 4 + clock_ofs + 1,
            s[at + 4 + clock_ofs] as int,
        )
    } else {
        Seq::<ChipClock>::empty()
    })
    &&& e.chip_volume@ == (if volume_ofs != 0 {
        spec_chip_volumes(
            s,
            at + 8 + volume_ofs + 1,
            s[at + 8 + volume_ofs] as int,
        )
    } else {
        Seq::<ChipVolume>::empty()
    })
}

/// Parse the extra header at `at` into `header`, leaving every fixed
/// header field as it was. `None` exactly when the extra header does
/// not fit in the data.
#[verifier::rlimit(60)]
fn parse_extra_header(data: &[u8], at: usize, header: VgmHeader) -> (r: Option<VgmHeader>)
    requires
        at as u64 <= 0x1_0000_00bbu64,
    ensures
        r is Some <==> spec_extra_ok(data@, at as int),
        r matches Some(h) ==> spec_extra_matches(h.extra_hdr, data@, at as int) && h == (VgmHeader {
            extra_hdr: h.extra_hdr,
            ..header
        }),
{
    let len = data.len();
    if at as u64 + 4 > len as u64 {
        return None;
    }
    let header_size = read_le32(data, at);
    let chip_clock_ofs: u32 = if header_size >= 0x08 {
        if at as u64 + 8 > len as u64 {
            return None;
        }
        read_le32(data, at + 4)
    } else {
        0
    };
    let chip_volume_ofs: u32 = if header_size >= 0x0c {
        if at as u64 + 12 > len as u64 {
            return None;
        }
        read_le32(data, at + 8)
    } else {
        0
    };
    let mut chip_clock: Vec<ChipClock> = Vec::new();
    if chip_clock_ofs != 0 {
        let clock_at64: u64 = at as u64 + 4 + chip_clock_ofs as u64;
        if clock_at64 >= len as u64 {
            return None;
        }
        match parse_extra_header_clock(data, clock_at64 as usize) {
            Some(clocks) => {
                chip_clock = clocks;
            },
            None => {
                return None;
            },
        }
    }
    let mut chip_volume: Vec<ChipVolume> = Vec::new();
    if chip_volume_ofs != 0 {
        let volume_at64: u64 = at as u64 + 8 + chip_volume_ofs as u64;
        if volume_at64 >= len as u64 {
            return None;
        }
        match parse_extra_header_volume(data, volume_at64 as usize) {
            Some(volumes) => {
                chip_volume = volumes;
            },
            None => {
                return None;
            },
        }
    }
    Some(
        VgmHeader {
            extra_hdr: ExtraHeader {
                header_size,
                chip_clock_ofs,
                chip_volume_ofs,
                chip_clock,
                chip_volume,
            },
            ..header
        },
    )
}

/// Where the VGM command data starts: the relative data offset plus its
/// own position, capped at `0xff` — the header region proper.
pub open spec fn spec_vgm_data_start(s: Seq<u8>) -> int {
    if spec_le32(s, 0x34) + 0x34 >= 0xff {
        0xff
    } else {
        spec_le32(s, 0x34) + 0x34
    }
}

/// The zero-padded 256-byte copy of the header region: file bytes up to
/// the data start, zeros after — command data never leaks into header
/// fields.
pub open spec fn spec_clean_header(s: Seq<u8>) -> Seq<u8> {
    Seq::new(
        0x100,
        |i: int|
            if i < spec_vgm_data_start(s) {
                s[i]
            } else {
                0u8
            },
    )
}

/// Whether the fixed header itself parses: the file covers the header
/// region and starts with the `Vgm ` tag.
pub open spec fn spec_vgm_base_ok(s: Seq<u8>) -> bool {
    &&& s.len() >= 0x38
    &&& s.len() >= spec_vgm_data_start(s)
    &&& spec_vgm_tag_ok(spec_clean_header(s))
}

/// Whether the whole metadata parse succeeds on `s`: the fixed header
/// parses and — when a version `1.70`+ file points at one — the extra
/// header fits.
pub open spec fn spec_vgm_meta_ok(s: Seq<u8>) -> bool {
    let clean = spec_clean_header(s);
    let version = spec_bcd_version(clean, 0x08);
    let extra_ofs = spec_le32(clean, 0xbc);
    &&& spec_vgm_base_ok(s)
    &&& (version >= 170 && extra_ofs != 0 ==> spec_extra_ok(s, 0xbc + extra_ofs))
}

/// Parse the VGM metadata: the version-gated fixed header read from
/// the zero-padded header region, plus the extra header when a version
/// `1.70`+ file points at one.
///
/// A file too short for the header region or missing the `Vgm ` tag is
/// surfaced as the header error; a pointed-at extra header that does
/// not fit as the extra-header error; never a crash.
#[verifier::rlimit(100)]
pub fn parse_vgm_meta(vgmdata: &[u8]) -> (r: Result<VgmHeader, &'static str>)
    ensures
        r is Ok <==> spec_vgm_meta_ok(vgmdata@),
        !spec_vgm_base_ok(vgmdata@) ==> (r matches Err(e) && e@ == "vgm header parse error."@),
        spec_vgm_base_ok(vgmdata@) && !spec_vgm_meta_ok(vgmdata@) ==> (r matches Err(e) && e@
            == "vgm extra header parse error."@),
        r matches Ok(h) ==> {
            let clean = spec_clean_header(vgmdata@);
            let version = spec_bcd_version(clean, 0x08);
            let extra_ofs = spec_le32(clean, 0xbc);
            &&& spec_header_matches(h, clean)
            &&& version >= 170 && extra_ofs != 0 ==> spec_extra_matches(
                h.extra_hdr,
                vgmdata@,
                0xbc + extra_ofs,
            )
            &&& !(version >= 170 && extra_ofs != 0) ==> spec_extra_empty(h.extra_hdr)
        },
{
    if vgmdata.len() < 0x38 {
        return Err("vgm header parse error.");
    }
    let data_start64: u64 = read_le32(vgmdata, 0x34) as u64 + 0x34;
    let data_start: usize = if data_start64 >= 0xff {
        0xff
    } else {
        data_start64 as usize
    };
    if vgmdata.len() < data_start {
        return Err("vgm header parse error.");
    }
    let mut clean_header: Vec<u8> = Vec::new();
    let mut i: usize = 0;
    while i < 0x100
        invariant
            i <= 0x100,
            data_start <= vgmdata@.len(),
            data_start == spec_vgm_data_start(vgmdata@),
            clean_header@.len() == i,
            forall|j: int| 0 <= j < i ==> clean_header@[j] == spec_clean_header(vgmdata@)[j],
        decreases 0x100 - i,
    {
        if i < data_start {
            clean_header.push(vgmdata[i]);
        } else {
            clean_header.push(0);
        }
        i = i + 1;
    }
    proof {
        assert(clean_header@ =~= spec_clean_header(vgmdata@));
    }
    let mut header = match parse_vgm_header(clean_header.as_slice()) {
        Some(h) => h,
        None => {
            return Err("vgm header parse error.");
        },
    };
    if header.version >= 170 && header.extra_hdr_ofs != 0 {
        let at64: u64 = 0xbc + header.extra_hdr_ofs as u64;
        if at64 + 4 > vgmdata.len() as u64 {
            return Err("vgm extra header parse error.");
        }
        header = match parse_extra_header(vgmdata, at64 as usize, header) {
            Some(h) => h,
            None => {
                return Err("vgm extra header parse error.");
            },
        };
    }
    Ok(header)
}

} // verus!
