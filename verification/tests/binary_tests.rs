//! Byte-reader and small-value-builder tests.

use cod_asset_importer::binary::Reader;
use cod_asset_importer::error::ErrorKind;
use cod_asset_importer::math::{color_from_vec, triangle_from_vec, uv_from_vec, vec3_from_vec};

#[test]
fn reader_little_endian_values() {
    let mut r = Reader::new(vec![0x01, 0x02, 0x03, 0x04, 0xFF, 0xFF, b'h', b'i', 0, 9]);
    assert_eq!(r.read_u16().unwrap(), 0x0201);
    assert_eq!(r.tell(), 2);
    assert_eq!(r.read_u16().unwrap(), 0x0403);
    assert_eq!(r.read_i16().unwrap(), -1);
    assert_eq!(r.read_nullstr().unwrap(), "hi");
    assert_eq!(r.read_u8().unwrap(), 9);
    let e = r.read_u8().err().unwrap();
    assert_eq!(e.kind, ErrorKind::TruncatedInput);
}

#[test]
fn reader_u32_and_seek() {
    let mut r = Reader::new(vec![0x78, 0x56, 0x34, 0x12, 0xAA]);
    assert_eq!(r.read_u32().unwrap(), 0x12345678);
    r.seek(4);
    assert_eq!(r.read_u8().unwrap(), 0xAA);
    r.seek(0);
    assert_eq!(r.read_i32().unwrap(), 0x12345678);
}

#[test]
fn reader_skip_clamps_to_end() {
    let mut r = Reader::new(vec![1, 2, 3]);
    r.skip(100);
    assert_eq!(r.tell(), 3);
    assert_eq!(r.read_u8().err().unwrap().kind, ErrorKind::TruncatedInput);
}

#[test]
fn reader_nullstr_without_terminator_fails() {
    let mut r = Reader::new(vec![b'a', b'b']);
    assert_eq!(r.read_nullstr().err().unwrap().kind, ErrorKind::TruncatedInput);
}

#[test]
fn error_constructor_carries_message() {
    let e = cod_asset_importer::error::Error::new("disk on fire".to_string());
    assert_eq!(e.kind, ErrorKind::IoError);
    assert_eq!(e.message(), "disk on fire");
}

#[test]
fn value_builders_check_lengths() {
    assert_eq!(triangle_from_vec(vec![1, 2, 3]), Some([1, 2, 3]));
    assert_eq!(triangle_from_vec(vec![1, 2]), None);
    assert_eq!(vec3_from_vec(vec![7, 8, 9]), Some([7, 8, 9]));
    assert_eq!(vec3_from_vec(vec![7]), None);
    assert_eq!(uv_from_vec(vec![4, 5]), Some([4, 5]));
    assert_eq!(uv_from_vec(vec![4, 5, 6]), None);
    assert_eq!(color_from_vec(vec![1, 2, 3, 4]), Some([1, 2, 3, 4]));
    assert_eq!(color_from_vec(vec![]), None);
}
