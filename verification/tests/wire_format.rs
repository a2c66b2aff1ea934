use argb_core::wire::{i32_bits, i32_from_bits, push_u16, push_u32};

#[test]
fn little_endian_pushes() {
    let mut buf = vec![9u8];
    push_u16(&mut buf, 0x1234);
    push_u32(&mut buf, 0xA1B2_C3D4);
    assert_eq!(buf, vec![9, 0x34, 0x12, 0xD4, 0xC3, 0xB2, 0xA1]);
}

#[test]
fn i32_bits_round_trip() {
    for v in [0i32, 1, -1, i32::MIN, i32::MAX, 0xFFFF] {
        assert_eq!(i32_from_bits(i32_bits(v)), v);
        assert_eq!(i32_bits(v), v as u32);
    }
}
