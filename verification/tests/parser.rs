use chipstream::vgmmeta::parse_vgm_meta;

fn put_le32(buf: &mut Vec<u8>, at: usize, value: u32) {
    let bytes = value.to_le_bytes();
    for k in 0..4 {
        buf[at + k] = bytes[k];
    }
}

/// A minimal well-formed file: a 256-byte header region whose data
/// offset points right past it, plus a little command data.
fn base_file(version_bytes: u32) -> Vec<u8> {
    let mut buf = vec![0u8; 0x110];
    buf[0] = b'V';
    buf[1] = b'g';
    buf[2] = b'm';
    buf[3] = b' ';
    put_le32(&mut buf, 0x08, version_bytes);
    // vgm_data_offset: data begins at 0x100, i.e. 0xcc + 0x34.
    put_le32(&mut buf, 0x34, 0xcc);
    buf
}

#[test]
fn parses_version_gated_fields() {
    let mut buf = base_file(0x0000_0150);
    put_le32(&mut buf, 0x04, 0x0c0);
    put_le32(&mut buf, 0x0c, 3_579_545);
    put_le32(&mut buf, 0x18, 44100);
    put_le32(&mut buf, 0x24, 60);
    put_le32(&mut buf, 0x2c, 7_670_453);
    // A v1.61 field: must stay zero in a v1.50 file.
    put_le32(&mut buf, 0x90, 4_000_000);
    let header = parse_vgm_meta(&buf).unwrap();
    assert_eq!(header.version, 150);
    assert_eq!(header.eof, 0x0c0);
    assert_eq!(header.clock_sn76489, 3_579_545);
    assert_eq!(header.total_samples, 44100);
    assert_eq!(header.rate, 60);
    assert_eq!(header.clock_ym2612, 7_670_453);
    assert_eq!(header.vgm_data_offset, 0xcc);
    assert_eq!(header.clock_okim6258, 0);
    assert_eq!(header.extra_hdr.header_size, 0);
    assert_eq!(header.extra_hdr.chip_clock.len(), 0);
}

#[test]
fn old_version_reads_nothing_above_its_revision() {
    let mut buf = base_file(0x0000_0101);
    put_le32(&mut buf, 0x24, 50);
    put_le32(&mut buf, 0x2c, 7_670_453);
    let header = parse_vgm_meta(&buf).unwrap();
    assert_eq!(header.version, 101);
    assert_eq!(header.rate, 50);
    // A v1.10 field stays zero in a v1.01 file.
    assert_eq!(header.clock_ym2612, 0);
    assert_eq!(header.vgm_data_offset, 0);
}

#[test]
fn malformed_bcd_version_decodes_to_zero() {
    // 0x1A is not binary-coded decimal: the version collapses to zero
    // and every gated field with it.
    let mut buf = base_file(0x0000_011a);
    put_le32(&mut buf, 0x0c, 3_579_545);
    let header = parse_vgm_meta(&buf).unwrap();
    assert_eq!(header.version, 0);
    assert_eq!(header.clock_sn76489, 0);
}

#[test]
fn data_offset_truncates_the_header_region() {
    // The data offset points inside the header: bytes past it must be
    // treated as command data, not header fields.
    let mut buf = base_file(0x0000_0150);
    put_le32(&mut buf, 0x2c, 7_670_453);
    put_le32(&mut buf, 0x34, 0x0c);  // data starts at 0x40
    let header = parse_vgm_meta(&buf).unwrap();
    assert_eq!(header.vgm_data_offset, 0x0c);
    // 0x2c..0x30 lies within the region, so the clock is read...
    assert_eq!(header.clock_ym2612, 7_670_453);
    // ...but a field past 0x40 is zeroed.
    put_le32(&mut buf, 0x44, 1_234_567);
    put_le32(&mut buf, 0x08, 0x0000_0151);
    let header = parse_vgm_meta(&buf).unwrap();
    assert_eq!(header.clock_ym2203, 0);
}

#[test]
fn extra_header_clocks_and_volumes() {
    let mut buf = base_file(0x0000_0171);
    buf.resize(0x140, 0);
    // extra_hdr_ofs: the extra header sits at 0xbc + 0x5c = 0x118.
    put_le32(&mut buf, 0xbc, 0x5c);
    put_le32(&mut buf, 0x118, 0x0c);  // header_size
    put_le32(&mut buf, 0x11c, 0x0c);  // chip_clock_ofs: list at 0x11c + 0x0c = 0x128
    put_le32(&mut buf, 0x120, 0x14);  // chip_volume_ofs: list at 0x120 + 0x14 = 0x134
    // clock list at 0x128: one entry
    buf[0x128] = 1;
    buf[0x129] = 2;  // chip_id
    put_le32(&mut buf, 0x12a, 8_000_000);
    buf[0x134] = 1;
    buf[0x135] = 3;   // chip_id
    buf[0x136] = 0x80;  // flags
    buf[0x137] = 0x34;  // volume lo
    buf[0x138] = 0x12;  // volume hi
    let header = parse_vgm_meta(&buf).unwrap();
    assert_eq!(header.version, 171);
    assert_eq!(header.extra_hdr.header_size, 0x0c);
    assert_eq!(header.extra_hdr.chip_clock_ofs, 0x0c);
    assert_eq!(header.extra_hdr.chip_volume_ofs, 0x14);
    assert_eq!(header.extra_hdr.chip_clock.len(), 1);
    assert_eq!(header.extra_hdr.chip_clock[0].chip_id, 2);
    assert_eq!(header.extra_hdr.chip_clock[0].clock_second_chip, 8_000_000);
    assert_eq!(header.extra_hdr.chip_volume.len(), 1);
    assert_eq!(header.extra_hdr.chip_volume[0].chip_id, 3);
    assert_eq!(header.extra_hdr.chip_volume[0].flags, 0x80);
    assert_eq!(header.extra_hdr.chip_volume[0].volume, 0x1234);
}

#[test]
fn short_file_is_a_header_error() {
    assert!(matches!(parse_vgm_meta(&[0u8; 0x20]), Err("vgm header parse error.")));
    assert!(matches!(parse_vgm_meta(&[]), Err("vgm header parse error.")));
}

#[test]
fn missing_tag_is_a_header_error() {
    let mut buf = base_file(0x0000_0150);
    buf[0] = b'X';
    assert!(matches!(parse_vgm_meta(&buf), Err("vgm header parse error.")));
}

#[test]
fn file_shorter_than_its_data_offset_is_a_header_error() {
    let mut buf = base_file(0x0000_0150);
    buf.truncate(0x80);
    // The data offset still claims 0x100 bytes of header.
    assert!(matches!(parse_vgm_meta(&buf), Err("vgm header parse error.")));
}

#[test]
fn truncated_extra_header_is_an_extra_error() {
    let mut buf = base_file(0x0000_0171);
    // Points far past the end of the file.
    put_le32(&mut buf, 0xbc, 0x1000);
    assert!(matches!(parse_vgm_meta(&buf), Err("vgm extra header parse error.")));
    // Points at a spot whose clock list runs off the end.
    let mut buf = base_file(0x0000_0171);
    buf.resize(0x130, 0);
    put_le32(&mut buf, 0xbc, 0x5c);
    put_le32(&mut buf, 0x118, 0x0c);
    put_le32(&mut buf, 0x11c, 0x0c);  // clock list at 0x128
    buf[0x128] = 200;  // 200 entries cannot fit
    assert!(matches!(parse_vgm_meta(&buf), Err("vgm extra header parse error.")));
}
