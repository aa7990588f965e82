use pcg_sampling::bytes::read_u32_into;
use pcg_sampling::bytes::read_u64_into;

#[test]
fn unpack_little_endian_u32_words() {
    let src = [0x78u8, 0x56, 0x34, 0x12, 0xEF, 0xBE, 0xAD, 0xDE, 0x00];
    let mut dst = [0u32; 2];
    read_u32_into(&src, &mut dst);
    assert_eq!(dst, [0x12345678, 0xDEADBEEF]);
}

#[test]
fn unpack_little_endian_u64_words() {
    let src = [
        1u8, 0, 0, 0, 0, 0, 0, 0, 0xFF, 0xFF, 0xFF, 0xFF, 0xFF, 0xFF, 0xFF, 0xFF,
    ];
    let mut dst = [0u64; 2];
    read_u64_into(&src, &mut dst);
    assert_eq!(dst, [1u64, u64::MAX]);
}

#[test]
fn unpack_from_exactly_sized_buffer() {
    let src = [9u8, 0, 0, 0];
    let mut dst = [5u32; 1];
    read_u32_into(&src, &mut dst);
    assert_eq!(dst, [9u32]);
}
