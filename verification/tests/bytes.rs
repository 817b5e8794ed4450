use bloom_cook::bytes::{hex_hash, push_i16, push_u16, push_u32, push_u64, read_i16, read_u16};

#[test]
fn little_endian_round_trips() {
    let mut out = Vec::new();
    push_u16(&mut out, 0x1234);
    push_i16(&mut out, -2);
    push_u32(&mut out, 0xdeadbeef);
    push_u64(&mut out, 1);
    assert_eq!(out[..4], [0x34, 0x12, 0xfe, 0xff]);
    assert_eq!(out[4..8], [0xef, 0xbe, 0xad, 0xde]);
    assert_eq!(out.len(), 16);
    assert_eq!(read_u16(&out, 0), Some(0x1234));
    assert_eq!(read_i16(&out, 2), Some(-2));
    assert_eq!(read_u16(&out, 15), None);
    assert_eq!(read_i16(&out, usize::MAX), None);
    assert_eq!(hex_hash(&[0x00, 0xab, 0x0f]), "00ab0f");
}
