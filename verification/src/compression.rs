use vstd::prelude::*;
use crate::error::RomError;

verus! {

/// First byte of every compressed stream.
pub const LZ_SIGNATURE: u8 = 0x10;

/// Bytes before the first flag byte: the signature and the declared length.
pub const LZ_HEADER_BYTES: usize = 4;

/// The length that the header declares for the unpacked data: bytes 1 to 3,
/// low byte first.
pub open spec fn declared_length(input: Seq<u8>) -> int {
    input[1] as int + 0x100 * input[2] as int + 0x1_0000 * input[3] as int
}

/// How many bytes a back-reference copies: the high four bits of its first
/// byte, plus 3.
pub open spec fn block_length(b0: u8) -> nat {
    (b0 as nat) / 16 + 3
}

/// How far back a back-reference reaches: the low four bits of its first
/// byte and all of its second, as a 12-bit number, plus 1.
pub open spec fn block_displacement(b0: u8, b1: u8) -> int {
    (b0 as int % 16) * 0x100 + b1 as int + 1
}

/// The byte that lies `displacement` bytes before the end of `out`, or 0
/// where the output is not yet that long.
pub open spec fn byte_behind(out: Seq<u8>, displacement: int) -> u8 {
    if 0 < displacement <= out.len() {
        out[out.len() - displacement]
    } else {
        0
    }
}

/// `out` followed by `count` bytes, each taken `displacement` bytes before
/// the end of the output as it stands when that byte is written. A copy may
/// therefore read bytes that it has itself written.
pub open spec fn copy_back(out: Seq<u8>, displacement: int, count: nat) -> Seq<u8>
    decreases count,
{
    if count == 0 {
        out
    } else {
        copy_back(out.push(byte_behind(out, displacement)), displacement, (count - 1) as nat)
    }
}

/// How many bytes a back-reference with first byte `b0` writes when `room`
/// bytes are left to the declared length: its own length, cut where it
/// would pass that length.
pub open spec fn copy_count(b0: u8, room: int) -> nat {
    if room <= 0 {
        0
    } else if block_length(b0) <= room {
        block_length(b0)
    } else {
        room as nat
    }
}

/// The flag byte once its top bit has been used.
pub open spec fn flags_after(flags: u8) -> u8 {
    ((flags as int * 2) % 0x100) as u8
}

/// What decoding arrives at from a state in the middle of a stream, or `None`
/// where the input ends inside a back-reference.
///
/// `pos` is the next input byte, `out` the output so far, and `blocks` the
/// number of blocks that the flag byte `flags` still governs, its top bit
/// standing for the next one. A clear bit copies one input byte; a set bit
/// reads a two-byte back-reference, whose copy ends at `target` bytes where
/// it would pass them. Decoding is over once `out` has reached `target`
/// bytes or the input is used up.
pub open spec fn unpack(
    input: Seq<u8>,
    target: int,
    pos: int,
    flags: u8,
    blocks: nat,
    out: Seq<u8>,
) -> Option<Seq<u8>>
    decreases input.len() - pos, blocks,
{
    if out.len() >= target || pos >= input.len() || pos < 0 {
        Some(out)
    } else if blocks == 0 {
        unpack(input, target, pos + 1, input[pos], 8, out)
    } else if flags < 0x80 {
        unpack(
            input,
            target,
            pos + 1,
            flags_after(flags),
            (blocks - 1) as nat,
            out.push(input[pos]),
        )
    } else if pos + 1 >= input.len() {
        None
    } else {
        unpack(
            input,
            target,
            pos + 2,
            flags_after(flags),
            (blocks - 1) as nat,
            copy_back(
                out,
                block_displacement(input[pos], input[pos + 1]),
                copy_count(input[pos], target - out.len()),
            ),
        )
    }
}

/// The data that a compressed stream unpacks to.
///
/// The stream is refused where it has fewer than four bytes, where its first
/// byte is not the signature, and where it ends inside a back-reference.
/// Decoding stops as soon as the declared length is reached: a last
/// back-reference is cut there, and the bytes of input that follow are
/// ignored.
pub open spec fn decompressed(input: Seq<u8>) -> Result<Seq<u8>, RomError> {
    if input.len() < LZ_HEADER_BYTES || input[0] != LZ_SIGNATURE {
        Err(RomError::Decompression)
    } else {
        match unpack(input, declared_length(input), 4, 0, 0, Seq::empty()) {
            Some(out) => Ok(out),
            None => Err(RomError::Decompression),
        }
    }
}

/// Unpacks a compressed stream. The output is never longer than the length
/// that the stream declares.
pub fn decompress_lz77(input: &[u8]) -> (result: Result<Vec<u8>, RomError>)
    ensures
        match result {
            Ok(output) => decompressed(input@) == Ok::<Seq<u8>, RomError>(output@)
                && output@.len() <= declared_length(input@),
            Err(e) => decompressed(input@) == Err::<Seq<u8>, RomError>(e),
        },
{
    if input.len() < LZ_HEADER_BYTES {
        return Err(RomError::Decompression);
    }
    if input[0] != LZ_SIGNATURE {
        return Err(RomError::Decompression);
    }
    let low: usize = input[1] as usize;
    let mid: usize = input[2] as usize;
    let high: usize = input[3] as usize;
    let size: usize = low + 0x100 * mid + 0x1_0000 * high;
    let ghost whole = unpack(input@, size as int, 4, 0, 0, Seq::empty());
    let mut output: Vec<u8> = Vec::with_capacity(size);
    let mut in_pos: usize = 4;
    let mut flags: u8 = 0;
    while output.len() < size && in_pos < input.len()
        invariant
            input@.len() >= 4,
            input@[0] == LZ_SIGNATURE,
            size == declared_length(input@),
            whole == unpack(input@, size as int, 4, 0, 0, Seq::empty()),
            whole == unpack(input@, size as int, in_pos as int, flags, 0, output@),
            output@.len() <= size,
        decreases input@.len() - in_pos,
    {
        flags = input[in_pos];
        in_pos += 1;
        let ghost round_start = in_pos;
        let mut blocks: u8 = 8;
        while blocks > 0
            invariant_except_break
                whole == unpack(input@, size as int, in_pos as int, flags, blocks as nat, output@),
            invariant
                input@.len() >= 4,
                input@[0] == LZ_SIGNATURE,
                size == declared_length(input@),
                whole == unpack(input@, size as int, 4, 0, 0, Seq::empty()),
                round_start <= in_pos <= input@.len(),
                output@.len() <= size,
            ensures
                whole == unpack(input@, size as int, in_pos as int, flags, 0, output@),
            decreases blocks,
        {
            if output.len() >= size || in_pos >= input.len() {
                break ;
            }
            if flags < 0x80 {
                output.push(input[in_pos]);
                in_pos += 1;
            } else {
                if in_pos + 1 >= input.len() {
                    return Err(RomError::Decompression);
                }
                let b0 = input[in_pos];
                let b1 = input[in_pos + 1];
                in_pos += 2;
                let length: usize = (b0 / 16) as usize + 3;
                let disp: usize = (b0 % 16) as usize * 0x100 + (b1 as usize) + 1;
                let ghost before = output@;
                let ghost count = copy_count(b0, size - before.len());
                let mut copied: usize = 0;
                while copied < length && output.len() < size
                    invariant
                        copied <= count,
                        disp > 0,
                        length == block_length(b0),
                        before.len() < size,
                        count == copy_count(b0, size - before.len()),
                        output@.len() == before.len() + copied,
                        copy_back(before, disp as int, count) == copy_back(
                            output@,
                            disp as int,
                            (count - copied) as nat,
                        ),
                    decreases count - copied,
                {
                    let byte = if output.len() >= disp {
                        output[output.len() - disp]
                    } else {
                        0
                    };
                    output.push(byte);
                    copied += 1;
                }
                assert(copied == count);
            }
            flags = ((flags as u16 * 2) % 0x100) as u8;
            blocks -= 1;
        }
    }
    Ok(output)
}

/// Unpacking never passes the length it aims at.
pub proof fn lemma_unpack_is_bounded(
    input: Seq<u8>,
    target: int,
    pos: int,
    flags: u8,
    blocks: nat,
    out: Seq<u8>,
)
    requires
        out.len() <= target,
    ensures
        unpack(input, target, pos, flags, blocks, out) matches Some(all) ==> all.len() <= target,
    decreases input.len() - pos, blocks,
{
    if out.len() >= target || pos >= input.len() || pos < 0 {
    } else if blocks == 0 {
        lemma_unpack_is_bounded(input, target, pos + 1, input[pos], 8, out);
    } else if flags < 0x80 {
        lemma_unpack_is_bounded(
            input,
            target,
            pos + 1,
            flags_after(flags),
            (blocks - 1) as nat,
            out.push(input[pos]),
        );
    } else if pos + 1 >= input.len() {
    } else {
        let displacement = block_displacement(input[pos], input[pos + 1]);
        let count = copy_count(input[pos], target - out.len());
        lemma_copy_back_adds_count(out, displacement, count);
        lemma_unpack_is_bounded(
            input,
            target,
            pos + 2,
            flags_after(flags),
            (blocks - 1) as nat,
            copy_back(out, displacement, count),
        );
    }
}

proof fn lemma_copy_back_adds_count(out: Seq<u8>, displacement: int, count: nat)
    ensures
        copy_back(out, displacement, count).len() == out.len() + count,
    decreases count,
{
    if count > 0 {
        lemma_copy_back_adds_count(
            out.push(byte_behind(out, displacement)),
            displacement,
            (count - 1) as nat,
        );
    }
}

/// The data that a stream unpacks to is never longer than the length that
/// the stream declares.
pub proof fn lemma_decompressed_is_bounded(input: Seq<u8>)
    ensures
        decompressed(input) matches Ok(out) ==> out.len() <= declared_length(input),
{
    if input.len() >= LZ_HEADER_BYTES {
        lemma_unpack_is_bounded(input, declared_length(input), 4, 0, 0, Seq::empty());
    }
}

/// A back-reference with displacement 1 repeats the byte before it: after at
/// least one byte of output, copying `count` bytes appends `count` copies of
/// the last byte.
pub proof fn lemma_displacement_one_repeats(out: Seq<u8>, count: nat)
    requires
        out.len() > 0,
    ensures
        copy_back(out, 1, count) == out + Seq::new(count, |i: int| out.last()),
    decreases count,
{
    if count == 0 {
        assert(out + Seq::new(count, |i: int| out.last()) =~= out);
    } else {
        let next = out.push(out.last());
        lemma_displacement_one_repeats(next, (count - 1) as nat);
        assert(next + Seq::new((count - 1) as nat, |i: int| next.last()) =~= out + Seq::new(
            count,
            |i: int| out.last(),
        ));
    }
}

/// Four bytes stored raw unpack to themselves: a stream with the signature,
/// a declared length of 4, a flag byte of zero and four bytes gives those
/// four bytes.
pub proof fn lemma_four_raw_bytes_unpack_to_themselves(a: u8, b: u8, c: u8, d: u8)
    ensures
        decompressed(seq![LZ_SIGNATURE, 4u8, 0u8, 0u8, 0u8, a, b, c, d]) == Ok::<
            Seq<u8>,
            RomError,
        >(seq![a, b, c, d]),
{
    let input = seq![LZ_SIGNATURE, 4u8, 0u8, 0u8, 0u8, a, b, c, d];
    let none = Seq::<u8>::empty();
    let all = seq![a, b, c, d];
    assert(flags_after(0) == 0);
    assert(unpack(input, 4, 9, 0, 4, all) == Some(all));
    assert(seq![a, b, c].push(input[8]) =~= all);
    assert(unpack(input, 4, 8, 0, 5, seq![a, b, c]) == Some(all));
    assert(seq![a, b].push(input[7]) =~= seq![a, b, c]);
    assert(unpack(input, 4, 7, 0, 6, seq![a, b]) == Some(all));
    assert(seq![a].push(input[6]) =~= seq![a, b]);
    assert(unpack(input, 4, 6, 0, 7, seq![a]) == Some(all));
    assert(none.push(input[5]) =~= seq![a]);
    assert(unpack(input, 4, 5, 0, 8, none) == Some(all));
    assert(unpack(input, 4, 4, 0, 0, none) == Some(all));
    assert(declared_length(input) == 4);
}

} // verus!
