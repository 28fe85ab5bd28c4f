use fled::{read_u16, read_u32};

#[test]
fn read_u16_puts_the_first_byte_lowest() {
    assert_eq!(read_u16(&[0x34, 0x12]), 0x1234);
    assert_eq!(read_u16(&[0x01, 0x00]), 1);
    assert_eq!(read_u16(&[0x00, 0x01]), 256);
}

#[test]
fn read_u16_covers_the_whole_range() {
    assert_eq!(read_u16(&[0x00, 0x00]), 0);
    assert_eq!(read_u16(&[0xff, 0xff]), u16::MAX);
}

#[test]
fn read_u16_ignores_what_follows_the_second_byte() {
    assert_eq!(read_u16(&[0x0d, 0x00, 0xaa, 0xbb]), 13);
}

#[test]
fn read_u32_puts_the_first_byte_lowest() {
    assert_eq!(read_u32(&[0x78, 0x56, 0x34, 0x12]), 0x1234_5678);
    assert_eq!(read_u32(&[0x01, 0x00, 0x00, 0x00]), 1);
    assert_eq!(read_u32(&[0x00, 0x01, 0x00, 0x00]), 256);
    assert_eq!(read_u32(&[0x00, 0x00, 0x01, 0x00]), 65_536);
    assert_eq!(read_u32(&[0x00, 0x00, 0x00, 0x01]), 16_777_216);
}

#[test]
fn read_u32_covers_the_whole_range() {
    assert_eq!(read_u32(&[0x00, 0x00, 0x00, 0x00]), 0);
    assert_eq!(read_u32(&[0xff, 0xff, 0xff, 0xff]), u32::MAX);
}

#[test]
fn read_u32_ignores_what_follows_the_fourth_byte() {
    assert_eq!(read_u32(&[0x07, 0x00, 0x00, 0x00, 0xaa]), 7);
}

#[test]
fn read_u32_agrees_with_the_standard_decoding() {
    let bytes = [0xde, 0xad, 0xbe, 0xef];
    assert_eq!(read_u32(&bytes), u32::from_le_bytes(bytes));
    assert_eq!(read_u16(&bytes), u16::from_le_bytes([0xde, 0xad]));
}
