use vstd::prelude::*;
use vstd::std_specs::btree::increasing_seq;
use vstd::std_specs::cmp::OrdSpec;
use vstd::std_specs::iter::IteratorSpec;
use std::collections::BTreeMap;
use crate::state::patch_set;

verus! {

/// First byte that the header checksum covers.
pub const CHECKSUM_FIRST: usize = 0xA0;

/// Where the header checksum is stored, right after the last byte that it
/// covers.
pub const CHECKSUM_AT: usize = 0xBD;

/// The byte that fills the gap when a patch lies past the end of the image.
pub const PAD_BYTE: u8 = 0xFF;

/// One more than the largest offset that a patch can have.
pub const OFFSET_LIMIT: u64 = 0x1_0000_0000;

/// The sum of the bytes of `data` from `from` up to, not including, `to`.
pub open spec fn byte_sum(data: Seq<u8>, from: int, to: int) -> int
    decreases to - from,
{
    if to <= from {
        0
    } else {
        byte_sum(data, from, to - 1) + data[to - 1] as int
    }
}

/// The checksum that belongs to the header of `data`: `0 - sum - 0x19` in
/// eight-bit arithmetic, where `sum` adds up the bytes at 0xA0 to 0xBC.
pub open spec fn header_checksum(data: Seq<u8>) -> u8 {
    ((0 - byte_sum(data, CHECKSUM_FIRST as int, CHECKSUM_AT as int) - 0x19) % 0x100) as u8
}

/// `data` with its header checksum set.
pub open spec fn with_checksum(data: Seq<u8>) -> Seq<u8> {
    data.update(CHECKSUM_AT as int, header_checksum(data))
}

/// `buf` with `bytes` written at offset `at`. Where the bytes end past the
/// end of `buf`, the buffer is first grown to that end with padding.
pub open spec fn write_at(buf: Seq<u8>, at: int, bytes: Seq<u8>) -> Seq<u8> {
    let end = at + bytes.len();
    let len = if end > buf.len() {
        end
    } else {
        buf.len() as int
    };
    Seq::new(
        len as nat,
        |i: int|
            if at <= i < end {
                bytes[i - at]
            } else if i < buf.len() {
                buf[i]
            } else {
                PAD_BYTE
            },
    )
}

/// `data` after the patches at offsets below `bound` have been written, in
/// ascending order of offset. Where two patches overlap, the one at the
/// larger offset therefore wins.
pub open spec fn patched_below(data: Seq<u8>, patches: Map<u32, Seq<u8>>, bound: nat) -> Seq<u8>
    decreases bound,
{
    if bound == 0 {
        data
    } else {
        let offset = (bound - 1) as u32;
        let before = patched_below(data, patches, (bound - 1) as nat);
        if patches.contains_key(offset) {
            write_at(before, offset as int, patches[offset])
        } else {
            before
        }
    }
}

/// `data` with every patch written.
pub open spec fn patched(data: Seq<u8>, patches: Map<u32, Seq<u8>>) -> Seq<u8> {
    patched_below(data, patches, OFFSET_LIMIT as nat)
}

/// The image that a save produces: every patch written, then the header
/// checksum set.
pub open spec fn saved_image(data: Seq<u8>, patches: Map<u32, Seq<u8>>) -> Seq<u8> {
    with_checksum(patched(data, patches))
}

/// Whether every patch ends at an offset that a `usize` can hold.
pub open spec fn patches_fit(patches: Map<u32, Seq<u8>>) -> bool {
    forall|offset: u32| #[trigger]
        patches.contains_key(offset) ==> offset + patches[offset].len() <= usize::MAX
}

/// Whether an image with its pending patches can be saved: every patch fits
/// in memory, and the merged image reaches past the byte where the header
/// checksum is stored.
pub open spec fn can_be_saved(data: Seq<u8>, patches: Map<u32, Seq<u8>>) -> bool {
    patches_fit(patches) && patched(data, patches).len() > CHECKSUM_AT
}

/// Patching never shortens an image.
pub proof fn lemma_patched_below_keeps_length(
    data: Seq<u8>,
    patches: Map<u32, Seq<u8>>,
    bound: nat,
)
    requires
        bound <= OFFSET_LIMIT,
    ensures
        patched_below(data, patches, bound).len() >= data.len(),
    decreases bound,
{
    if bound > 0 {
        lemma_patched_below_keeps_length(data, patches, (bound - 1) as nat);
    }
}

/// Merging the patches never shortens an image.
pub proof fn lemma_patched_keeps_length(data: Seq<u8>, patches: Map<u32, Seq<u8>>)
    ensures
        patched(data, patches).len() >= data.len(),
{
    lemma_patched_below_keeps_length(data, patches, OFFSET_LIMIT as nat);
}

/// The merged image reaches at least to the end of every patch.
pub proof fn lemma_patched_reaches_each_patch(
    data: Seq<u8>,
    patches: Map<u32, Seq<u8>>,
    offset: u32,
)
    requires
        patches.contains_key(offset),
    ensures
        patched(data, patches).len() >= offset + patches[offset].len(),
{
    lemma_patched_below_keeps_length(data, patches, offset as nat);
    lemma_patched_below_grows(data, patches, (offset + 1) as nat, OFFSET_LIMIT as nat);
}

proof fn lemma_patched_below_grows(
    data: Seq<u8>,
    patches: Map<u32, Seq<u8>>,
    lo: nat,
    hi: nat,
)
    requires
        lo <= hi <= OFFSET_LIMIT,
    ensures
        patched_below(data, patches, hi).len() >= patched_below(data, patches, lo).len(),
    decreases hi - lo,
{
    if lo < hi {
        lemma_patched_below_grows(data, patches, lo, (hi - 1) as nat);
    }
}

/// The merged image ends where the image or one of the patches ends: it is
/// no longer than a length that bounds them all.
pub proof fn lemma_patched_is_bounded(
    data: Seq<u8>,
    patches: Map<u32, Seq<u8>>,
    limit: int,
    bound: nat,
)
    requires
        bound <= OFFSET_LIMIT,
        data.len() <= limit,
        forall|offset: u32| #[trigger]
            patches.contains_key(offset) ==> offset + patches[offset].len() <= limit,
    ensures
        patched_below(data, patches, bound).len() <= limit,
    decreases bound,
{
    if bound > 0 {
        lemma_patched_is_bounded(data, patches, limit, (bound - 1) as nat);
    }
}

proof fn lemma_no_patch_between(data: Seq<u8>, patches: Map<u32, Seq<u8>>, lo: nat, hi: nat)
    requires
        lo <= hi <= OFFSET_LIMIT,
        forall|offset: u32| lo <= offset < hi ==> !patches.contains_key(offset),
    ensures
        patched_below(data, patches, hi) == patched_below(data, patches, lo),
    decreases hi - lo,
{
    if lo < hi {
        lemma_no_patch_between(data, patches, lo, (hi - 1) as nat);
    }
}

/// With no patch pending, merging gives the image itself.
pub proof fn lemma_no_patches_change_nothing(data: Seq<u8>)
    ensures
        patched(data, Map::<u32, Seq<u8>>::empty()) == data,
{
    lemma_no_patch_between(data, Map::<u32, Seq<u8>>::empty(), 0, OFFSET_LIMIT as nat);
}

proof fn lemma_increasing_offsets_ascend(offsets: Seq<u32>)
    requires
        increasing_seq(offsets),
    ensures
        forall|i: int, j: int| 0 <= i < j < offsets.len() ==> offsets[i] < offsets[j],
{
    assert forall|i: int, j: int| 0 <= i < j < offsets.len() implies offsets[i] < offsets[j] by {
        assert(offsets[i].cmp_spec(&offsets[j]) is Less);
    }
}

/// Computes the header checksum of an image.
pub fn calculate_header_checksum(data: &[u8]) -> (checksum: u8)
    requires
        data@.len() >= CHECKSUM_AT,
    ensures
        checksum == header_checksum(data@),
{
    let mut sum: u8 = 0;
    let mut i: usize = CHECKSUM_FIRST;
    while i < CHECKSUM_AT
        invariant
            CHECKSUM_FIRST <= i <= CHECKSUM_AT,
            data@.len() >= CHECKSUM_AT,
            sum as int == byte_sum(data@, CHECKSUM_FIRST as int, i as int) % 0x100,
        decreases CHECKSUM_AT - i,
    {
        sum = sum.wrapping_add(data[i]);
        i += 1;
    }
    (0u8).wrapping_sub(sum).wrapping_sub(0x19)
}

/// Writes `bytes` into `buf` at offset `start`, growing the buffer with
/// padding where the bytes end past its end.
pub fn write_patch(buf: &mut Vec<u8>, start: usize, bytes: &[u8])
    requires
        start + bytes@.len() <= usize::MAX,
    ensures
        final(buf)@ == write_at(old(buf)@, start as int, bytes@),
{
    let end: usize = start + bytes.len();
    if end > buf.len() {
        buf.resize(end, PAD_BYTE);
        assert forall|i: int| 0 <= i < old(buf)@.len() implies buf@[i] == old(buf)@[i] by {
            assert(buf@.subrange(0, old(buf)@.len() as int)[i] == old(buf)@[i]);
        }
    }
    let ghost grown = buf@;
    assert(forall|i: int| old(buf)@.len() <= i < grown.len() ==> grown[i] == PAD_BYTE);
    let mut j: usize = 0;
    while j < bytes.len()
        invariant
            j <= bytes@.len(),
            end == start + bytes@.len(),
            end <= buf@.len(),
            buf@.len() == grown.len(),
            forall|i: int| 0 <= i < start + j && !(start <= i) ==> buf@[i] == grown[i],
            forall|i: int| start <= i < start + j ==> buf@[i] == bytes@[i - start],
            forall|i: int| start + j <= i < buf@.len() ==> buf@[i] == grown[i],
        decreases bytes@.len() - j,
    {
        buf.set(start + j, bytes[j]);
        j += 1;
    }
    assert(buf@ =~= write_at(old(buf)@, start as int, bytes@));
}

/// Builds the image that results from writing every pending patch into a
/// copy of `data`, in ascending order of offset.
pub fn apply_patches(data: &Vec<u8>, modifications: &BTreeMap<u32, Vec<u8>>) -> (out: Vec<u8>)
    requires
        patches_fit(patch_set(modifications@)),
    ensures
        out@ == patched(data@, patch_set(modifications@)),
{
    let ghost patches = patch_set(modifications@);
    let mut new_data = data.clone();
    assert(new_data@ =~= data@);
    let ghost mut bound: nat = 0;
    let entries = modifications.iter();
    proof {
        let listed = entries.remaining();
        lemma_increasing_offsets_ascend(listed.map_values(|kv: (&u32, &Vec<u8>)| *kv.0));
        assert forall|i: int, j: int| 0 <= i < j < listed.len() implies *listed[i].0
            < *listed[j].0 by {
            assert(listed.map_values(|kv: (&u32, &Vec<u8>)| *kv.0)[i] == *listed[i].0);
            assert(listed.map_values(|kv: (&u32, &Vec<u8>)| *kv.0)[j] == *listed[j].0);
        }
    }
    for entry in it: entries
        invariant
            patches == patch_set(modifications@),
            patches_fit(patches),
            bound <= OFFSET_LIMIT,
            new_data@ == patched_below(data@, patches, bound),
            forall|i: int| it.index() <= i < it.seq().len() ==> bound <= *it.seq()[i].0,
            forall|i: int, j: int|
                0 <= i < j < it.seq().len() ==> *it.seq()[i].0 < *it.seq()[j].0,
            forall|i: int|
                0 <= i < it.seq().len() ==> modifications@.contains_key(*it.seq()[i].0)
                    && modifications@[*it.seq()[i].0] == *it.seq()[i].1,
            forall|offset: u32|
                modifications@.contains_key(offset) && bound <= offset ==> exists|i: int|
                    it.index() <= i < it.seq().len() && *it.seq()[i].0 == offset,
    {
        let offset: u32 = *entry.0;
        let bytes: &Vec<u8> = entry.1;
        proof {
            assert(patches.contains_key(offset));
            assert(patches[offset] == bytes@);
            assert forall|o: u32| bound <= o < offset implies !patches.contains_key(o) by {
                if modifications@.contains_key(o) {
                    let i = choose|i: int|
                        it.index() <= i < it.seq().len() && *it.seq()[i].0 == o;
                    assert(*it.seq()[it.index()].0 <= *it.seq()[i].0);
                }
            }
            lemma_no_patch_between(data@, patches, bound, offset as nat);
            bound = (offset + 1) as nat;
        }
        write_patch(&mut new_data, offset as usize, bytes.as_slice());
    }
    proof {
        assert forall|o: u32| bound <= o < OFFSET_LIMIT implies !patches.contains_key(o) by {
            assert(!modifications@.contains_key(o));
        }
        lemma_no_patch_between(data@, patches, bound, OFFSET_LIMIT as nat);
    }
    new_data
}

/// Tells whether every pending patch ends at an offset that a `usize` can
/// hold.
pub fn patches_fit_in_memory(modifications: &BTreeMap<u32, Vec<u8>>) -> (fit: bool)
    ensures
        fit == patches_fit(patch_set(modifications@)),
{
    let ghost patches = patch_set(modifications@);
    let entries = modifications.iter();
    for entry in it: entries
        invariant
            patches == patch_set(modifications@),
            forall|i: int|
                0 <= i < it.seq().len() ==> modifications@.contains_key(*it.seq()[i].0)
                    && modifications@[*it.seq()[i].0] == *it.seq()[i].1,
            forall|offset: u32|
                modifications@.contains_key(offset) ==> exists|i: int|
                    0 <= i < it.seq().len() && *it.seq()[i].0 == offset,
            forall|i: int|
                0 <= i < it.index() ==> *it.seq()[i].0 + it.seq()[i].1@.len() <= usize::MAX,
    {
        let offset: u32 = *entry.0;
        if entry.1.len() > usize::MAX - offset as usize {
            assert(patches.contains_key(offset));
            return false;
        }
    }
    assert forall|offset: u32| #[trigger] patches.contains_key(offset) implies offset
        + patches[offset].len() <= usize::MAX by {
        assert(modifications@.contains_key(offset));
    }
    true
}

/// The bytes that a checksum covers do not include the byte where it is
/// stored: setting the checksum leaves the checksum that belongs to the
/// header as it was.
pub proof fn lemma_checksum_ignores_its_own_byte(data: Seq<u8>, value: u8)
    requires
        data.len() > CHECKSUM_AT,
    ensures
        header_checksum(data.update(CHECKSUM_AT as int, value)) == header_checksum(data),
{
    lemma_byte_sum_of_equal_ranges(
        data,
        data.update(CHECKSUM_AT as int, value),
        CHECKSUM_FIRST as int,
        CHECKSUM_AT as int,
    );
}

proof fn lemma_byte_sum_of_equal_ranges(a: Seq<u8>, b: Seq<u8>, from: int, to: int)
    requires
        0 <= from <= to <= a.len(),
        to <= b.len(),
        forall|i: int| from <= i < to ==> a[i] == b[i],
    ensures
        byte_sum(a, from, to) == byte_sum(b, from, to),
    decreases to - from,
{
    if from < to {
        lemma_byte_sum_of_equal_ranges(a, b, from, to - 1);
    }
}

/// The byte at 0xBD of a saved image is the checksum of that image:
/// `0 - sum - 0x19` in eight-bit arithmetic, where `sum` adds up the bytes
/// of the saved image at 0xA0 to 0xBC.
pub proof fn lemma_saved_image_holds_its_checksum(data: Seq<u8>, patches: Map<u32, Seq<u8>>)
    requires
        patched(data, patches).len() > CHECKSUM_AT,
    ensures
        saved_image(data, patches)[CHECKSUM_AT as int] == header_checksum(
            saved_image(data, patches),
        ),
{
    let merged = patched(data, patches);
    lemma_checksum_ignores_its_own_byte(merged, header_checksum(merged));
}

/// Setting the checksum of an image whose checksum is set changes nothing.
pub proof fn lemma_with_checksum_is_idempotent(data: Seq<u8>)
    requires
        data.len() > CHECKSUM_AT,
    ensures
        with_checksum(with_checksum(data)) == with_checksum(data),
{
    lemma_checksum_ignores_its_own_byte(data, header_checksum(data));
    assert(with_checksum(with_checksum(data)) =~= with_checksum(data));
}

/// Two saves with no patch recorded in between give the same bytes: the
/// saved image depends on the loaded image and the pending patches alone.
pub proof fn lemma_saves_agree(
    data: Seq<u8>,
    patches: Map<u32, Seq<u8>>,
    first: Seq<u8>,
    second: Seq<u8>,
)
    requires
        first == saved_image(data, patches),
        second == saved_image(data, patches),
    ensures
        first == second,
{
}

/// Tells whether an image with its pending patches can be saved.
pub fn is_saveable(data: &Vec<u8>, modifications: &BTreeMap<u32, Vec<u8>>) -> (saveable: bool)
    ensures
        saveable == can_be_saved(data@, patch_set(modifications@)),
{
    let ghost patches = patch_set(modifications@);
    if !patches_fit_in_memory(modifications) {
        return false;
    }
    if data.len() > CHECKSUM_AT {
        proof {
            lemma_patched_keeps_length(data@, patches);
        }
        return true;
    }
    let entries = modifications.iter();
    for entry in it: entries
        invariant
            patches == patch_set(modifications@),
            patches_fit(patches),
            data@.len() <= CHECKSUM_AT,
            forall|i: int|
                0 <= i < it.seq().len() ==> modifications@.contains_key(*it.seq()[i].0)
                    && modifications@[*it.seq()[i].0] == *it.seq()[i].1,
            forall|offset: u32|
                modifications@.contains_key(offset) ==> exists|i: int|
                    0 <= i < it.seq().len() && *it.seq()[i].0 == offset,
            forall|i: int|
                0 <= i < it.index() ==> *it.seq()[i].0 + it.seq()[i].1@.len() <= CHECKSUM_AT,
    {
        let offset: u32 = *entry.0;
        assert(patches.contains_key(offset));
        if offset as usize + entry.1.len() > CHECKSUM_AT {
            proof {
                lemma_patched_reaches_each_patch(data@, patches, offset);
            }
            return true;
        }
    }
    proof {
        assert forall|offset: u32| #[trigger] patches.contains_key(offset) implies offset
            + patches[offset].len() <= CHECKSUM_AT by {
            assert(modifications@.contains_key(offset));
        }
        lemma_patched_is_bounded(data@, patches, CHECKSUM_AT as int, OFFSET_LIMIT as nat);
    }
    false
}

} // verus!
