//! Texture decompression and container tests.

use cod_asset_importer::error::ErrorKind;
use cod_asset_importer::decode::{decode_dxt1, decode_dxt3, decode_dxt5};
use cod_asset_importer::iwi::{calculate_highest_mipmap, IWi, IWiFormat, IWiVersion};

#[test]
fn dxt1_solid_color_block() {
    // c0 == c1 == 0xF800 (pure red in RGB565), all texel indices 0.
    let block = vec![0x00, 0xF8, 0x00, 0xF8, 0, 0, 0, 0];
    let out = decode_dxt1(block, 4, 4);
    assert_eq!(out.len(), 64);
    for t in 0..16 {
        assert_eq!(out[4 * t], 255); // red widened: 0xF8 | (0xF8 >> 5)
        assert_eq!(out[4 * t + 1], 0);
        assert_eq!(out[4 * t + 2], 0);
        assert_eq!(out[4 * t + 3], 255);
    }
}

#[test]
fn dxt1_edge_block_covers_only_valid_texels() {
    // A 2x2 image still comes from one block; output is 2*2*4 bytes.
    let block = vec![0x00, 0xF8, 0x00, 0xF8, 0, 0, 0, 0];
    let out = decode_dxt1(block, 2, 2);
    assert_eq!(out.len(), 16);
    for t in 0..4 {
        assert_eq!(out[4 * t], 255);
        assert_eq!(out[4 * t + 3], 255);
    }
}

#[test]
fn dxt3_explicit_alpha() {
    // Alpha rows all 0xFFFF except the first nibble 0x0 -> texel 0 alpha 0.
    let mut block = vec![0xF0, 0xFF, 0xFF, 0xFF, 0xFF, 0xFF, 0xFF, 0xFF];
    block.extend_from_slice(&[0x00, 0xF8, 0x00, 0xF8, 0, 0, 0, 0]);
    let out = decode_dxt3(block, 4, 4);
    assert_eq!(out.len(), 64);
    assert_eq!(out[3], 0x00); // texel 0: low nibble 0x0 * 0x11
    assert_eq!(out[7], 0xFF); // texel 1: nibble 0xF * 0x11
    assert_eq!(out[0], 255); // color stays red
}

#[test]
fn dxt5_interpolated_alpha() {
    // The 3-bit alpha indices are drawn from the whole 8-byte alpha block,
    // endpoint bytes included: with a0 = 255, a1 = 0 the first texel's
    // index is 255 & 7 == 7, the lowest ramp entry (a0 + a1 * 6) / 7 == 36.
    let mut block = vec![255, 0, 0, 0, 0, 0, 0, 0];
    block.extend_from_slice(&[0x00, 0xF8, 0x00, 0xF8, 0, 0, 0, 0]);
    let out = decode_dxt5(block, 4, 4);
    assert_eq!(out.len(), 64);
    // Index stream 0xFF, 0x00, ...: texels 0 and 1 pick entry 7, texel 2
    // picks entry 3 ((a0 * 5 + a1 * 2) / 7 == 182), the rest entry 0.
    assert_eq!(out[3], 36);
    assert_eq!(out[7], 36);
    assert_eq!(out[11], 182);
    for t in 3..16 {
        assert_eq!(out[4 * t + 3], 255);
    }
    for t in 0..16 {
        assert_eq!(out[4 * t], 255);
        assert_eq!(out[4 * t + 1], 0);
    }
}

#[test]
fn mipmap_selection_prefers_largest_candidate() {
    // The first candidate is anchored against end-of-file, interior ones
    // against their left neighbor, the last against the post-table cursor;
    // the largest (the first, 400 bytes) wins.
    let m = calculate_highest_mipmap(vec![100, 50, 40], 30, 500);
    assert_eq!(m.offset, 100);
    assert_eq!(m.size, 400);
}

#[test]
fn mipmap_selection_candidate_ranges() {
    // When the range after the post-table cursor is the largest, the last
    // candidate wins: it starts at the cursor and runs to the smallest
    // offset.
    let m = calculate_highest_mipmap(vec![480, 460, 450], 30, 500);
    assert_eq!((m.offset, m.size), (30, 420));
}

#[test]
fn mipmap_selection_single_entry() {
    let m = calculate_highest_mipmap(vec![16], 16, 48);
    assert_eq!(m.offset, 16);
    assert_eq!(m.size, 32);
}

fn iwi_v5_file(format: u8, with_payload: bool) -> Vec<u8> {
    // Magic "IWi", version 5, info block, 4-entry mip table, payload.
    let mut f = vec![0x49, 0x57, 0x69, 0x05];
    f.push(format); // format
    f.push(0); // usage
    f.extend_from_slice(&4u16.to_le_bytes()); // width
    f.extend_from_slice(&4u16.to_le_bytes()); // height
    f.extend_from_slice(&1u16.to_le_bytes()); // depth
    // mip offsets at 12..28; payload at 28.
    let payload_len: u32 = if with_payload { 8 } else { 0 };
    f.extend_from_slice(&(28u32 + payload_len).to_le_bytes());
    f.extend_from_slice(&28u32.to_le_bytes());
    f.extend_from_slice(&28u32.to_le_bytes());
    f.extend_from_slice(&28u32.to_le_bytes());
    if with_payload {
        f.extend_from_slice(&[0x00, 0xF8, 0x00, 0xF8, 0, 0, 0, 0]);
    }
    f
}

#[test]
fn iwi_decodes_dxt1_payload() {
    // The first candidate spans offset 28 to end of file: the 8-byte block.
    let f = iwi_v5_file(0x0B, true);
    let iwi = IWi::load(f).unwrap();
    assert_eq!(iwi.width, 4);
    assert_eq!(iwi.height, 4);
    assert_eq!(iwi.data.len(), 64);
    assert_eq!(iwi.data[0], 255);
    assert_eq!(iwi.data[3], 255);
}

#[test]
fn iwi_bad_magic_is_invalid_format() {
    let r = IWi::load(vec![b'X', b'Y', b'Z', 0x05, 0, 0, 0, 0]);
    assert_eq!(r.err().unwrap().kind, ErrorKind::InvalidFormat);
}

#[test]
fn iwi_unknown_version_is_invalid_format() {
    let r = IWi::load(vec![0x49, 0x57, 0x69, 0x99, 0, 0, 0, 0]);
    assert_eq!(r.err().unwrap().kind, ErrorKind::InvalidFormat);
}

#[test]
fn iwi_truncated_is_truncated_input() {
    let r = IWi::load(vec![0x49, 0x57]);
    assert_eq!(r.err().unwrap().kind, ErrorKind::TruncatedInput);
}

#[test]
fn iwi_unsupported_format_byte() {
    // Format 0x01 is a known but undecoded format.
    let f = iwi_v5_file(0x01, true);
    let r = IWi::load(f);
    assert_eq!(r.err().unwrap().kind, ErrorKind::UnsupportedFormat);
}

#[test]
fn iwi_empty_mip_is_empty_data() {
    // All candidates empty: first anchors against end of file == offset.
    let f = iwi_v5_file(0x0B, false);
    let r = IWi::load(f);
    assert_eq!(r.err().unwrap().kind, ErrorKind::EmptyData);
}

#[test]
fn iwi_version_and_format_tables() {
    assert_eq!(IWiVersion::valid(0x05), Some(IWiVersion::V5));
    assert_eq!(IWiVersion::valid(0x1B), Some(IWiVersion::V27));
    assert_eq!(IWiVersion::valid(0x07), None);
    assert_eq!(IWiFormat::valid(0x0B), Some(IWiFormat::DXT1));
    assert_eq!(IWiFormat::valid(0x0D), Some(IWiFormat::DXT5));
    assert_eq!(IWiFormat::valid(0x42), None);
}
