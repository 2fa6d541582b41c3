use instcodec::Encoder;

#[test]
fn encoder_starts_empty() {
    let encoder = Encoder::new();
    assert_eq!(encoder.into_vec(), Vec::<u8>::new());
}

#[test]
fn encoder_write_u8() {
    let mut encoder = Encoder::new();
    encoder.write_u8(0xAA);
    encoder.write_u8(0x01);
    assert_eq!(encoder.into_vec(), vec![0xAA, 0x01]);
}

#[test]
fn encoder_write_i32_little_endian() {
    let mut encoder = Encoder::new();
    encoder.write_i32(-2);
    assert_eq!(encoder.into_vec(), vec![0xFE, 0xFF, 0xFF, 0xFF]);

    let mut encoder = Encoder::new();
    encoder.write_i32(0x04030201);
    assert_eq!(encoder.into_vec(), vec![0x01, 0x02, 0x03, 0x04]);
}

#[test]
fn encoder_write_bytes() {
    let mut encoder = Encoder::new();
    encoder.write_u8(0xFF);
    encoder.write_bytes(&[0x15, 0x69]);
    encoder.write_bytes(&[]);
    assert_eq!(encoder.into_vec(), vec![0xFF, 0x15, 0x69]);
}

#[test]
fn encoder_holds_a_full_instruction() {
    // The capacity is the largest instruction length, fifteen bytes.
    let mut encoder = Encoder::new();
    encoder.write_bytes(&[0x90; 11]);
    encoder.write_i32(0);
    assert_eq!(encoder.into_vec().len(), 15);
}
