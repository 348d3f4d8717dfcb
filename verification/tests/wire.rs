use proxichat::wire::{i64_from_le_bytes, i64_to_le_bytes, u32_from_le_bytes, u32_to_le_bytes};

#[test]
fn u32_bytes_are_little_endian() {
    assert_eq!(u32_to_le_bytes(0), [0, 0, 0, 0]);
    assert_eq!(u32_to_le_bytes(1), [1, 0, 0, 0]);
    assert_eq!(u32_to_le_bytes(0x0102_0304), [4, 3, 2, 1]);
    assert_eq!(u32_to_le_bytes(u32::MAX), [255, 255, 255, 255]);
}

#[test]
fn u32_bytes_agree_with_std() {
    for x in [0u32, 1, 255, 256, 65_535, 65_536, 0x00ff_ffff, 0x0100_0000, 0xdead_beef, u32::MAX] {
        assert_eq!(u32_to_le_bytes(x), x.to_le_bytes());
        assert_eq!(u32_from_le_bytes(&x.to_le_bytes(), 0), x);
    }
}

#[test]
fn u32_is_read_at_an_offset() {
    let bytes = [9, 9, 0x78, 0x56, 0x34, 0x12, 9];
    assert_eq!(u32_from_le_bytes(&bytes, 2), 0x1234_5678);
}

#[test]
fn i64_bytes_agree_with_std() {
    for x in [0i64, 1, -1, 42, -42, 255, 256, i64::MAX, i64::MIN, i64::MIN + 1, 0x0102_0304_0506_0708] {
        assert_eq!(i64_to_le_bytes(x), x.to_le_bytes());
        assert_eq!(i64_from_le_bytes(&x.to_le_bytes(), 0), x);
    }
}

#[test]
fn i64_is_read_at_an_offset() {
    let mut bytes = vec![7u8; 3];
    bytes.extend_from_slice(&(-5i64).to_le_bytes());
    assert_eq!(i64_from_le_bytes(&bytes, 3), -5);
}

#[test]
fn a_sample_keeps_its_bits() {
    for sample in [0.0f32, -0.0, 1.0, -1.5, f32::MIN_POSITIVE, f32::MAX, f32::INFINITY] {
        let bits = sample.to_bits();
        let back = u32_from_le_bytes(&u32_to_le_bytes(bits), 0);
        assert_eq!(f32::from_bits(back).to_bits(), sample.to_bits());
        assert_eq!(u32_to_le_bytes(bits), sample.to_le_bytes());
    }
}
