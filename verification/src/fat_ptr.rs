//! Fat pointers: a guest pointer and a byte length packed into one `u64`.
use vstd::prelude::*;

verus! {

/// A packed `(pointer, size)` pair: the pointer in the high 32 bits,
/// the size in the low 32 bits.
pub type FatPtr = u64;

/// Byte length of a guest buffer.
pub type Size = u32;

/// Guest linear-memory address.
pub type Ptr = u32;

/// The pointer half of a fat pointer.
pub open spec fn spec_ptr_of(fat_ptr: u64) -> u32 {
    (fat_ptr >> 32u64) as u32
}

/// The size half of a fat pointer.
pub open spec fn spec_size_of(fat_ptr: u64) -> u32 {
    (fat_ptr & 0xffff_ffffu64) as u32
}

/// The fat pointer that packs `ptr` and `size`.
pub open spec fn spec_fat_ptr(ptr: u32, size: u32) -> u64 {
    ((ptr as u64) << 32u64) | (size as u64)
}

/// Splits a fat pointer into its pointer and size.
pub fn from_fat_ptr(fat_ptr: FatPtr) -> (res: (Ptr, Size))
    ensures
        res.0 == spec_ptr_of(fat_ptr),
        res.1 == spec_size_of(fat_ptr),
        res.0 as int == fat_ptr as int / 0x1_0000_0000,
        res.1 as int == fat_ptr as int % 0x1_0000_0000,
{
    let ptr = (fat_ptr >> 32u64) as Ptr;
    let size = fat_ptr as Size;
    assert(size == (fat_ptr & 0xffff_ffffu64) as u32) by (bit_vector)
        requires size == fat_ptr as u32;
    assert((fat_ptr >> 32u64) as u32 as int == fat_ptr as int / 0x1_0000_0000
        && (fat_ptr & 0xffff_ffffu64) as u32 as int == fat_ptr as int % 0x1_0000_0000) by (bit_vector);
    (ptr, size)
}

/// Packs a pointer and a size into one fat pointer.
pub fn to_fat_ptr(ptr: Ptr, size: Size) -> (res: FatPtr)
    ensures
        res == spec_fat_ptr(ptr, size),
        res as int == ptr as int * 0x1_0000_0000 + size as int,
{
    assert((((ptr as u64) << 32u64) | (size as u64)) as int
        == ptr as int * 0x1_0000_0000 + size as int) by (bit_vector);
    ((ptr as u64) << 32u64) | (size as u64)
}

/// Unpacking a packed pair gives the pair back.
pub proof fn lemma_unpack_pack(ptr: u32, size: u32)
    ensures
        spec_ptr_of(spec_fat_ptr(ptr, size)) == ptr,
        spec_size_of(spec_fat_ptr(ptr, size)) == size,
{
    assert(((((ptr as u64) << 32u64) | (size as u64)) >> 32u64) as u32 == ptr
        && ((((ptr as u64) << 32u64) | (size as u64)) & 0xffff_ffffu64) as u32 == size)
        by (bit_vector);
}

/// Packing the two halves of a fat pointer gives the fat pointer back.
pub proof fn lemma_pack_unpack(fat_ptr: u64)
    ensures
        spec_fat_ptr(spec_ptr_of(fat_ptr), spec_size_of(fat_ptr)) == fat_ptr,
{
    assert(((((fat_ptr >> 32u64) as u32) as u64) << 32u64
        | (((fat_ptr & 0xffff_ffffu64) as u32) as u64)) == fat_ptr) by (bit_vector);
}

} // verus!
