use vstd::prelude::*;
use std::collections::BTreeMap;
use crate::structures::RomHeader;

verus! {

/// A loaded image with its header and the patches that wait for the next
/// save.
pub struct RomState {
    /// The image as it was loaded.
    pub data: Vec<u8>,
    /// The header decoded from the start of the image.
    pub header: RomHeader,
    /// Pending patches: offset into the image, and the bytes to write there.
    pub modifications: BTreeMap<u32, Vec<u8>>,
}

/// The patches of a session as plain values: offset to replacement bytes.
pub open spec fn patch_set(modifications: Map<u32, Vec<u8>>) -> Map<u32, Seq<u8>> {
    modifications.map_values(|bytes: Vec<u8>| bytes@)
}

impl RomState {
    /// The pending patches, offset to replacement bytes.
    pub open spec fn patches(&self) -> Map<u32, Seq<u8>> {
        patch_set(self.modifications@)
    }

    /// A session around a freshly loaded image, with no patch pending.
    pub fn new(data: Vec<u8>, header: RomHeader) -> (state: Self)
        ensures
            state.data == data,
            state.header == header,
            state.patches() == Map::<u32, Seq<u8>>::empty(),
    {
        let state = RomState { data, header, modifications: BTreeMap::new() };
        assert(state.patches() =~= Map::<u32, Seq<u8>>::empty());
        state
    }
}

} // verus!
