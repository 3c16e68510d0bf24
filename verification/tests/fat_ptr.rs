use wasm_codegen::fat_ptr::{from_fat_ptr, to_fat_ptr};
use wasm_codegen::num_bytes::{u64_from_le, u64_to_le, NumAsU64Arr, BYTES_TO_STORE_U64_32_TIMES};

#[test]
fn fat_ptr_packs_pointer_high_size_low() {
    assert_eq!(to_fat_ptr(1, 2), 0x0000_0001_0000_0002);
    assert_eq!(to_fat_ptr(0xdead_beef, 0x1234), 0xdead_beef_0000_1234);
    assert_eq!(from_fat_ptr(0xdead_beef_0000_1234), (0xdead_beef, 0x1234));
}

#[test]
fn fat_ptr_roundtrips() {
    for (p, s) in [(0u32, 0u32), (u32::MAX, u32::MAX), (7, 0), (0, 9), (123_456, 789)] {
        assert_eq!(from_fat_ptr(to_fat_ptr(p, s)), (p, s));
    }
    for f in [0u64, u64::MAX, 1 << 32, 0x0123_4567_89ab_cdef] {
        let (p, s) = from_fat_ptr(f);
        assert_eq!(to_fat_ptr(p, s), f);
    }
}

#[test]
fn slot_bytes_are_little_endian_and_zero_padded() {
    assert_eq!(BYTES_TO_STORE_U64_32_TIMES, 256);
    assert_eq!(u64_to_le(0x0102_0304_0506_0708), [8, 7, 6, 5, 4, 3, 2, 1]);
    assert_eq!(u64_from_le([8, 7, 6, 5, 4, 3, 2, 1]), 0x0102_0304_0506_0708);
    assert_eq!(0x1234u16.into_bytes(), [0x34, 0x12, 0, 0, 0, 0, 0, 0]);
    assert_eq!((-1i32).into_bytes(), [0xff, 0xff, 0xff, 0xff, 0, 0, 0, 0]);
    assert_eq!((-2i8).into_bytes(), [0xfe, 0, 0, 0, 0, 0, 0, 0]);
    assert_eq!(i64::MIN.into_bytes(), [0, 0, 0, 0, 0, 0, 0, 0x80]);
    assert_eq!(200u8.into_bytes(), [200, 0, 0, 0, 0, 0, 0, 0]);
}

#[test]
fn slots_roundtrip_every_integer_type() {
    assert_eq!(i32::from_bytes((-123_456i32).into_bytes()), -123_456);
    assert_eq!(i16::from_bytes(i16::MIN.into_bytes()), i16::MIN);
    assert_eq!(i8::from_bytes((-1i8).into_bytes()), -1);
    assert_eq!(i64::from_bytes(i64::MIN.into_bytes()), i64::MIN);
    assert_eq!(u8::from_bytes(255u8.into_bytes()), 255);
    assert_eq!(u16::from_bytes(65_535u16.into_bytes()), 65_535);
    assert_eq!(u32::from_bytes(u32::MAX.into_bytes()), u32::MAX);
    assert_eq!(u64::from_bytes(u64::MAX.into_bytes()), u64::MAX);
}

#[test]
fn from_bytes_reads_only_the_low_bytes() {
    let bytes = [0x01, 0x02, 0x03, 0x04, 0xaa, 0xbb, 0xcc, 0xdd];
    assert_eq!(u8::from_bytes(bytes), 0x01);
    assert_eq!(u16::from_bytes(bytes), 0x0201);
    assert_eq!(i32::from_bytes(bytes), 0x0403_0201);
    assert_eq!(u64::from_bytes(bytes), 0xddcc_bbaa_0403_0201);
}
