use vstd::prelude::*;

verus! {

/// First address of the cartridge in the console's memory map.
pub const ROM_BASE: u32 = 0x0800_0000;

/// Last address of the cartridge in the console's memory map.
pub const ROM_LAST: u32 = 0x09FF_FFFF;

/// Size of the window into which every pointer is folded.
pub const ROM_WINDOW: u32 = 0x0200_0000;

/// The offset into the image that a cartridge-space pointer stands for.
///
/// Only the low 25 bits count. A pointer outside the cartridge's address
/// range is folded in the same way, not rejected.
pub open spec fn resolved_offset(pointer: u32) -> nat {
    (pointer as nat) % (ROM_WINDOW as nat)
}

/// Turns a cartridge-space pointer into an offset into the image.
///
/// The caller compares the offset with the image's length before reading.
pub fn resolve_pointer(pointer: u32) -> (offset: usize)
    ensures
        offset as nat == resolved_offset(pointer),
{
    assert(pointer & 0x01FF_FFFF == pointer % 0x0200_0000) by (bit_vector);
    (pointer & 0x01FF_FFFF) as usize
}

/// A pointer inside the cartridge's address range resolves to its distance
/// from the start of that range.
pub proof fn lemma_resolve_in_range(pointer: u32)
    requires
        ROM_BASE <= pointer <= ROM_LAST,
    ensures
        resolved_offset(pointer) == pointer - ROM_BASE,
{
}

} // verus!
