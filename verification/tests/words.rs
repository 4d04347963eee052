//! Big-endian header words.

use mnist_decoder::word::read_be_u32;

#[test]
fn reads_most_significant_byte_first() {
    assert_eq!(read_be_u32(&[0x12, 0x34, 0x56, 0x78], 0), 0x1234_5678);
    assert_eq!(read_be_u32(&[0x00, 0x00, 0x08, 0x01], 0), 2049);
    assert_eq!(read_be_u32(&[0x00, 0x00, 0x08, 0x03], 0), 2051);
    assert_eq!(read_be_u32(&[0x00, 0x00, 0xea, 0x60], 0), 60000);
}

#[test]
fn reads_the_extremes() {
    assert_eq!(read_be_u32(&[0, 0, 0, 0], 0), 0);
    assert_eq!(read_be_u32(&[0xff, 0xff, 0xff, 0xff], 0), u32::MAX);
    assert_eq!(read_be_u32(&[0x80, 0, 0, 0], 0), 0x8000_0000);
    assert_eq!(read_be_u32(&[0, 0, 0, 1], 0), 1);
}

#[test]
fn reads_at_an_offset() {
    let bytes = [9, 9, 9, 0x01, 0x02, 0x03, 0x04, 9];
    assert_eq!(read_be_u32(&bytes, 3), 0x0102_0304);
    assert_eq!(read_be_u32(&bytes, 4), 0x0203_0409);
}

#[test]
fn agrees_with_the_standard_encoding() {
    for value in [0u32, 1, 255, 256, 65535, 65536, 2049, 2051, 60000, 0x7fff_ffff, u32::MAX] {
        assert_eq!(read_be_u32(&value.to_be_bytes(), 0), value);
    }
}
