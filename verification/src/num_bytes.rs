//! Numbers in the 8-byte argument slots of the big-call buffer.
use vstd::prelude::*;

verus! {

/// Bytes in one argument slot.
pub const U64_SIZE: usize = 8;

/// Bytes of the big-call buffer: 32 argument slots.
pub const BYTES_TO_STORE_U64_32_TIMES: usize = 32 * U64_SIZE;

/// The 8 little-endian bytes of `x`.
pub open spec fn le_bytes(x: u64) -> Seq<u8> {
    seq![
        x as u8,
        (x >> 8u64) as u8,
        (x >> 16u64) as u8,
        (x >> 24u64) as u8,
        (x >> 32u64) as u8,
        (x >> 40u64) as u8,
        (x >> 48u64) as u8,
        (x >> 56u64) as u8,
    ]
}

/// The number whose little-endian bytes are `b[0..8]`.
pub open spec fn le_value(b: Seq<u8>) -> u64 {
    (b[0] as u64) | ((b[1] as u64) << 8u64) | ((b[2] as u64) << 16u64) | ((b[3] as u64) << 24u64)
        | ((b[4] as u64) << 32u64) | ((b[5] as u64) << 40u64) | ((b[6] as u64) << 48u64) | ((
    b[7] as u64) << 56u64)
}

/// The little-endian bytes of `x`.
pub fn u64_to_le(x: u64) -> (res: [u8; 8])
    ensures
        res@ == le_bytes(x),
{
    let res = [
        x as u8,
        (x >> 8u64) as u8,
        (x >> 16u64) as u8,
        (x >> 24u64) as u8,
        (x >> 32u64) as u8,
        (x >> 40u64) as u8,
        (x >> 48u64) as u8,
        (x >> 56u64) as u8,
    ];
    assert(res@ =~= le_bytes(x));
    res
}

/// The number whose little-endian bytes are `b`.
pub fn u64_from_le(b: [u8; 8]) -> (res: u64)
    ensures
        res == le_value(b@),
{
    (b[0] as u64) | ((b[1] as u64) << 8u64) | ((b[2] as u64) << 16u64) | ((b[3] as u64) << 24u64)
        | ((b[4] as u64) << 32u64) | ((b[5] as u64) << 40u64) | ((b[6] as u64) << 48u64) | ((
    b[7] as u64) << 56u64)
}

/// Reading back the bytes of a number gives the number.
pub proof fn lemma_le_value_of_bytes(x: u64)
    ensures
        le_value(le_bytes(x)) == x,
{
    let b = le_bytes(x);
    assert(b[0] == x as u8 && b[1] == (x >> 8u64) as u8 && b[2] == (x >> 16u64) as u8 && b[3]
        == (x >> 24u64) as u8 && b[4] == (x >> 32u64) as u8 && b[5] == (x >> 40u64) as u8 && b[6]
        == (x >> 48u64) as u8 && b[7] == (x >> 56u64) as u8);
    assert(((x as u8) as u64) | ((((x >> 8u64) as u8) as u64) << 8u64) | ((((x >> 16u64) as u8) as u64) << 16u64)
        | ((((x >> 24u64) as u8) as u64) << 24u64) | ((((x >> 32u64) as u8) as u64) << 32u64)
        | ((((x >> 40u64) as u8) as u64) << 40u64) | ((((x >> 48u64) as u8) as u64) << 48u64)
        | ((((x >> 56u64) as u8) as u64) << 56u64) == x) by (bit_vector);
}

/// Writing out the number that 8 bytes encode gives the bytes.
pub proof fn lemma_bytes_of_le_value(b: Seq<u8>)
    requires
        b.len() == 8,
    ensures
        le_bytes(le_value(b)) == b,
{
    let (b0, b1, b2, b3, b4, b5, b6, b7) = (b[0], b[1], b[2], b[3], b[4], b[5], b[6], b[7]);
    let v = le_value(b);
    assert(v == (b0 as u64) | ((b1 as u64) << 8u64) | ((b2 as u64) << 16u64) | ((b3 as u64) << 24u64)
        | ((b4 as u64) << 32u64) | ((b5 as u64) << 40u64) | ((b6 as u64) << 48u64) | ((b7 as u64) << 56u64));
    assert(v as u8 == b0 && (v >> 8u64) as u8 == b1 && (v >> 16u64) as u8 == b2 && (v >> 24u64) as u8 == b3
        && (v >> 32u64) as u8 == b4 && (v >> 40u64) as u8 == b5 && (v >> 48u64) as u8 == b6
        && (v >> 56u64) as u8 == b7) by (bit_vector)
        requires
            v == (b0 as u64) | ((b1 as u64) << 8u64) | ((b2 as u64) << 16u64) | ((b3 as u64) << 24u64)
                | ((b4 as u64) << 32u64) | ((b5 as u64) << 40u64) | ((b6 as u64) << 48u64) | ((b7 as u64) << 56u64);
    assert(le_bytes(v) =~= b);
}

/// An integer that travels in one 8-byte argument slot: its little-endian
/// bytes, padded with zero bytes.
pub trait NumAsU64Arr: Copy + Sized {
    /// The value's little-endian bytes read as an unsigned number
    /// (two's complement for signed types), zero-extended to 64 bits.
    spec fn wire_bits(self) -> u64;

    /// The value whose little-endian bytes are the low bytes of `bits`.
    spec fn from_wire_bits(bits: u64) -> Self;

    /// How many bytes the value occupies.
    spec fn byte_width() -> nat;

    /// The slot bytes past the value's width are zero.
    proof fn lemma_padding_is_zero(x: Self)
        ensures
            Self::byte_width() <= 8,
            forall|k: int| Self::byte_width() <= k < 8 ==> #[trigger] le_bytes(x.wire_bits())[k] == 0,
    ;

    /// A value survives the trip through its slot bits.
    proof fn lemma_wire_bits_inverse(x: Self)
        ensures
            Self::from_wire_bits(x.wire_bits()) == x,
    ;

    /// The value held in the low bytes of a slot.
    fn from_bytes(bytes: [u8; 8]) -> (res: Self)
        ensures
            res == Self::from_wire_bits(le_value(bytes@)),
    ;

    /// The slot that holds the value.
    fn into_bytes(self) -> (res: [u8; 8])
        ensures
            res@ == le_bytes(self.wire_bits()),
    ;
}

impl NumAsU64Arr for u8 {
    open spec fn byte_width() -> nat {
        1
    }

    proof fn lemma_padding_is_zero(x: u8) {
        let b = x as u64;
        assert((b >> 8u64) as u8 == 0 && (b >> 16u64) as u8 == 0 && (b >> 24u64) as u8 == 0 && (b >> 32u64) as u8 == 0 && (b >> 40u64) as u8 == 0 && (b >> 48u64) as u8 == 0 && (b >> 56u64) as u8 == 0) by (bit_vector)
            requires
                b == x as u64;
    }

    open spec fn wire_bits(self) -> u64 {
        self as u64
    }

    open spec fn from_wire_bits(bits: u64) -> u8 {
        bits as u8
    }

    proof fn lemma_wire_bits_inverse(x: u8) {
        assert((x as u64) as u8 == x) by (bit_vector);
    }

    fn from_bytes(bytes: [u8; 8]) -> (res: u8) {
        u64_from_le(bytes) as u8
    }

    fn into_bytes(self) -> (res: [u8; 8]) {
        u64_to_le(self as u64)
    }
}

impl NumAsU64Arr for u16 {
    open spec fn byte_width() -> nat {
        2
    }

    proof fn lemma_padding_is_zero(x: u16) {
        let b = x as u64;
        assert((b >> 16u64) as u8 == 0 && (b >> 24u64) as u8 == 0 && (b >> 32u64) as u8 == 0 && (b >> 40u64) as u8 == 0 && (b >> 48u64) as u8 == 0 && (b >> 56u64) as u8 == 0) by (bit_vector)
            requires
                b == x as u64;
    }

    open spec fn wire_bits(self) -> u64 {
        self as u64
    }

    open spec fn from_wire_bits(bits: u64) -> u16 {
        bits as u16
    }

    proof fn lemma_wire_bits_inverse(x: u16) {
        assert((x as u64) as u16 == x) by (bit_vector);
    }

    fn from_bytes(bytes: [u8; 8]) -> (res: u16) {
        u64_from_le(bytes) as u16
    }

    fn into_bytes(self) -> (res: [u8; 8]) {
        u64_to_le(self as u64)
    }
}

impl NumAsU64Arr for u32 {
    open spec fn byte_width() -> nat {
        4
    }

    proof fn lemma_padding_is_zero(x: u32) {
        let b = x as u64;
        assert((b >> 32u64) as u8 == 0 && (b >> 40u64) as u8 == 0 && (b >> 48u64) as u8 == 0 && (b >> 56u64) as u8 == 0) by (bit_vector)
            requires
                b == x as u64;
    }

    open spec fn wire_bits(self) -> u64 {
        self as u64
    }

    open spec fn from_wire_bits(bits: u64) -> u32 {
        bits as u32
    }

    proof fn lemma_wire_bits_inverse(x: u32) {
        assert((x as u64) as u32 == x) by (bit_vector);
    }

    fn from_bytes(bytes: [u8; 8]) -> (res: u32) {
        u64_from_le(bytes) as u32
    }

    fn into_bytes(self) -> (res: [u8; 8]) {
        u64_to_le(self as u64)
    }
}

impl NumAsU64Arr for u64 {
    open spec fn byte_width() -> nat {
        8
    }

    proof fn lemma_padding_is_zero(x: u64) {
    }

    open spec fn wire_bits(self) -> u64 {
        self
    }

    open spec fn from_wire_bits(bits: u64) -> u64 {
        bits
    }

    proof fn lemma_wire_bits_inverse(x: u64) {
    }

    fn from_bytes(bytes: [u8; 8]) -> (res: u64) {
        u64_from_le(bytes)
    }

    fn into_bytes(self) -> (res: [u8; 8]) {
        u64_to_le(self)
    }
}

impl NumAsU64Arr for i8 {
    open spec fn byte_width() -> nat {
        1
    }

    proof fn lemma_padding_is_zero(x: i8) {
        let b = (x as u8) as u64;
        assert((b >> 8u64) as u8 == 0 && (b >> 16u64) as u8 == 0 && (b >> 24u64) as u8 == 0 && (b >> 32u64) as u8 == 0 && (b >> 40u64) as u8 == 0 && (b >> 48u64) as u8 == 0 && (b >> 56u64) as u8 == 0) by (bit_vector)
            requires
                b == (x as u8) as u64;
    }

    open spec fn wire_bits(self) -> u64 {
        (self as u8) as u64
    }

    open spec fn from_wire_bits(bits: u64) -> i8 {
        (bits as u8) as i8
    }

    proof fn lemma_wire_bits_inverse(x: i8) {
        assert(((x as u8) as u64) as u8 as i8 == x) by (bit_vector);
    }

    fn from_bytes(bytes: [u8; 8]) -> (res: i8) {
        (u64_from_le(bytes) as u8) as i8
    }

    fn into_bytes(self) -> (res: [u8; 8]) {
        u64_to_le((self as u8) as u64)
    }
}

impl NumAsU64Arr for i16 {
    open spec fn byte_width() -> nat {
        2
    }

    proof fn lemma_padding_is_zero(x: i16) {
        let b = (x as u16) as u64;
        assert((b >> 16u64) as u8 == 0 && (b >> 24u64) as u8 == 0 && (b >> 32u64) as u8 == 0 && (b >> 40u64) as u8 == 0 && (b >> 48u64) as u8 == 0 && (b >> 56u64) as u8 == 0) by (bit_vector)
            requires
                b == (x as u16) as u64;
    }

    open spec fn wire_bits(self) -> u64 {
        (self as u16) as u64
    }

    open spec fn from_wire_bits(bits: u64) -> i16 {
        (bits as u16) as i16
    }

    proof fn lemma_wire_bits_inverse(x: i16) {
        assert(((x as u16) as u64) as u16 as i16 == x) by (bit_vector);
    }

    fn from_bytes(bytes: [u8; 8]) -> (res: i16) {
        (u64_from_le(bytes) as u16) as i16
    }

    fn into_bytes(self) -> (res: [u8; 8]) {
        u64_to_le((self as u16) as u64)
    }
}

impl NumAsU64Arr for i32 {
    open spec fn byte_width() -> nat {
        4
    }

    proof fn lemma_padding_is_zero(x: i32) {
        let b = (x as u32) as u64;
        assert((b >> 32u64) as u8 == 0 && (b >> 40u64) as u8 == 0 && (b >> 48u64) as u8 == 0 && (b >> 56u64) as u8 == 0) by (bit_vector)
            requires
                b == (x as u32) as u64;
    }

    open spec fn wire_bits(self) -> u64 {
        (self as u32) as u64
    }

    open spec fn from_wire_bits(bits: u64) -> i32 {
        (bits as u32) as i32
    }

    proof fn lemma_wire_bits_inverse(x: i32) {
        assert(((x as u32) as u64) as u32 as i32 == x) by (bit_vector);
    }

    fn from_bytes(bytes: [u8; 8]) -> (res: i32) {
        (u64_from_le(bytes) as u32) as i32
    }

    fn into_bytes(self) -> (res: [u8; 8]) {
        u64_to_le((self as u32) as u64)
    }
}

impl NumAsU64Arr for i64 {
    open spec fn byte_width() -> nat {
        8
    }

    proof fn lemma_padding_is_zero(x: i64) {
    }

    open spec fn wire_bits(self) -> u64 {
        self as u64
    }

    open spec fn from_wire_bits(bits: u64) -> i64 {
        bits as i64
    }

    proof fn lemma_wire_bits_inverse(x: i64) {
        assert((x as u64) as i64 == x) by (bit_vector);
    }

    fn from_bytes(bytes: [u8; 8]) -> (res: i64) {
        u64_from_le(bytes) as i64
    }

    fn into_bytes(self) -> (res: [u8; 8]) {
        u64_to_le(self as u64)
    }
}

/// Reading a slot back gives the value that was written into it.
pub proof fn lemma_slot_roundtrip<T: NumAsU64Arr>(x: T)
    ensures
        T::from_wire_bits(le_value(le_bytes(x.wire_bits()))) == x,
{
    lemma_le_value_of_bytes(x.wire_bits());
    T::lemma_wire_bits_inverse(x);
}

} // verus!
