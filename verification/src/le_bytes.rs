use vstd::prelude::*;

verus! {

/// The 16-bit value stored at `at`, low byte first.
pub open spec fn le_u16(bytes: Seq<u8>, at: int) -> u16 {
    (bytes[at] as int + 0x100 * bytes[at + 1] as int) as u16
}

/// The 32-bit value stored at `at`, low byte first.
pub open spec fn le_u32(bytes: Seq<u8>, at: int) -> u32 {
    (bytes[at] as int + 0x100 * bytes[at + 1] as int + 0x1_0000 * bytes[at + 2] as int
        + 0x100_0000 * bytes[at + 3] as int) as u32
}

/// Reads the little-endian 16-bit value at `at`.
pub fn read_u16(data: &[u8], at: usize) -> (value: u16)
    requires
        at + 2 <= data.len(),
    ensures
        value == le_u16(data@, at as int),
{
    (data[at] as u16) + 0x100 * (data[at + 1] as u16)
}

/// Reads the little-endian 32-bit value at `at`.
pub fn read_u32(data: &[u8], at: usize) -> (value: u32)
    requires
        at + 4 <= data.len(),
    ensures
        value == le_u32(data@, at as int),
{
    (data[at] as u32) + 0x100 * (data[at + 1] as u32) + 0x1_0000 * (data[at + 2] as u32)
        + 0x100_0000 * (data[at + 3] as u32)
}

/// Copies `len` bytes that start at `at`.
pub fn read_bytes(data: &[u8], at: usize, len: usize) -> (bytes: Vec<u8>)
    requires
        at + len <= data.len(),
    ensures
        bytes@ == data@.subrange(at as int, at + len),
{
    let mut bytes: Vec<u8> = Vec::with_capacity(len);
    let mut i: usize = 0;
    while i < len
        invariant
            i <= len,
            at + len <= data.len(),
            bytes@ =~= data@.subrange(at as int, at + i),
        decreases len - i,
    {
        bytes.push(data[at + i]);
        i += 1;
    }
    bytes
}

} // verus!
