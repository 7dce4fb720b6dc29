use gba_rom::compression::decompress_lz77;
use gba_rom::error::RomError;

#[test]
fn test_lz77_decompression_simple() {
    let input = vec![0x10, 0x04, 0x00, 0x00, 0x00, 0x41, 0x42, 0x43, 0x44];
    let output = decompress_lz77(&input).unwrap();
    assert_eq!(output, vec![0x41, 0x42, 0x43, 0x44]);
}

#[test]
fn back_reference_copies_earlier_output() {
    // raw 'A', raw 'B', then three bytes from two bytes back
    let input = vec![0x10, 0x05, 0x00, 0x00, 0x20, 0x41, 0x42, 0x00, 0x01];
    let output = decompress_lz77(&input).unwrap();
    assert_eq!(output, vec![0x41, 0x42, 0x41, 0x42, 0x41]);
}

#[test]
fn displacement_one_repeats_the_last_byte() {
    // raw 'A', then five bytes from one byte back
    let input = vec![0x10, 0x06, 0x00, 0x00, 0x40, 0x41, 0x20, 0x00];
    let output = decompress_lz77(&input).unwrap();
    assert_eq!(output, vec![0x41; 6]);
}

#[test]
fn longest_back_reference_copies_eighteen_bytes() {
    let input = vec![0x10, 0x13, 0x00, 0x00, 0x40, 0x5A, 0xF0, 0x00];
    let output = decompress_lz77(&input).unwrap();
    assert_eq!(output, vec![0x5A; 19]);
}

#[test]
fn displacement_uses_twelve_bits() {
    // the low nibble of the first byte is the high part of the displacement:
    // (1 << 8 | 0) + 1 = 257 lies before the one byte of output, so the copy
    // reads zeros; with the nibble ignored it would repeat the 7
    let input = vec![0x10, 0x04, 0x00, 0x00, 0x40, 0x07, 0x01, 0x00];
    let output = decompress_lz77(&input).unwrap();
    assert_eq!(output, vec![0x07, 0x00, 0x00, 0x00]);
}

#[test]
fn displacement_before_the_output_reads_zero() {
    let input = vec![0x10, 0x03, 0x00, 0x00, 0x80, 0x00, 0x05];
    let output = decompress_lz77(&input).unwrap();
    assert_eq!(output, vec![0, 0, 0]);
}

#[test]
fn a_copy_may_reach_its_own_start() {
    // two raw bytes, then displacement 3: the first copied byte lies before
    // the output, the next two are the raw bytes
    let input = vec![0x10, 0x05, 0x00, 0x00, 0x20, 0x01, 0x02, 0x00, 0x02];
    let output = decompress_lz77(&input).unwrap();
    assert_eq!(output, vec![1, 2, 0, 1, 2]);
}

#[test]
fn last_back_reference_is_cut_at_the_declared_length() {
    let input = vec![0x10, 0x02, 0x00, 0x00, 0x40, 0x41, 0x20, 0x00];
    let output = decompress_lz77(&input).unwrap();
    assert_eq!(output, vec![0x41; 2]);
    // one raw byte, then a block of three against a declared length of two
    let short = vec![0x10, 0x02, 0x00, 0x00, 0x40, 0x41, 0x00, 0x00];
    assert_eq!(decompress_lz77(&short).unwrap(), vec![0x41; 2]);
    // a block that starts the output is cut as well
    let first = vec![0x10, 0x01, 0x00, 0x00, 0x80, 0xF0, 0x00];
    assert_eq!(decompress_lz77(&first).unwrap(), vec![0x00]);
}

#[test]
fn output_is_never_longer_than_declared() {
    for declared in 0..40u8 {
        let input =
            vec![0x10, declared, 0x00, 0x00, 0x6A, 0x07, 0xF0, 0x00, 0x30, 0x01, 0x08, 0x50, 0x00];
        let output = decompress_lz77(&input).unwrap();
        assert!(output.len() <= declared as usize);
    }
}

#[test]
fn back_reference_that_ends_at_the_declared_length_is_whole() {
    let input = vec![0x10, 0x04, 0x00, 0x00, 0x40, 0x41, 0x00, 0x00];
    assert_eq!(decompress_lz77(&input).unwrap(), vec![0x41; 4]);
}

#[test]
fn stops_when_the_input_is_used_up() {
    let input = vec![0x10, 0x0A, 0x00, 0x00, 0x00, 0x41];
    let output = decompress_lz77(&input).unwrap();
    assert_eq!(output, vec![0x41]);
}

#[test]
fn bytes_after_the_declared_length_are_ignored() {
    let input = vec![0x10, 0x01, 0x00, 0x00, 0x00, 0x41, 0x42, 0x43];
    let output = decompress_lz77(&input).unwrap();
    assert_eq!(output, vec![0x41]);
}

#[test]
fn declared_length_zero_gives_nothing() {
    assert_eq!(decompress_lz77(&[0x10, 0, 0, 0]).unwrap(), Vec::<u8>::new());
    assert_eq!(decompress_lz77(&[0x10, 0, 0, 0, 0xFF, 0x12, 0x34]).unwrap(), Vec::<u8>::new());
}

#[test]
fn header_alone_with_a_length_gives_nothing() {
    assert_eq!(decompress_lz77(&[0x10, 9, 0, 0]).unwrap(), Vec::<u8>::new());
}

#[test]
fn a_flag_byte_governs_eight_blocks() {
    let input = vec![0x10, 0x09, 0x00, 0x00, 0x00, 1, 2, 3, 4, 5, 6, 7, 8, 0x00, 9];
    let output = decompress_lz77(&input).unwrap();
    assert_eq!(output, vec![1, 2, 3, 4, 5, 6, 7, 8, 9]);
}

#[test]
fn flag_bits_are_read_from_the_top() {
    // 0x01: seven raw bytes, then the eighth block is a back-reference
    let input = vec![0x10, 0x0A, 0x00, 0x00, 0x01, 1, 2, 3, 4, 5, 6, 7, 0x00, 0x06];
    let output = decompress_lz77(&input).unwrap();
    assert_eq!(output, vec![1, 2, 3, 4, 5, 6, 7, 1, 2, 3]);
}

#[test]
fn declared_length_is_three_bytes_low_first() {
    let mut input = vec![0x10, 0x00, 0x01, 0x00, 0x7F, 0x5A];
    for _ in 0..7 {
        input.push(0xF0);
        input.push(0x00);
    }
    input.push(0xFF);
    for _ in 0..8 {
        input.push(0xF0);
        input.push(0x00);
    }
    let output = decompress_lz77(&input).unwrap();
    // 1 + 7 * 18 = 127 after the first round; in the second round the
    // eighth block of 18 reaches 256 bytes and is cut there
    assert_eq!(output, vec![0x5A; 256]);
}

#[test]
fn third_length_byte_counts() {
    // declared length 0x010000: the input ends long before
    let input = vec![0x10, 0x00, 0x00, 0x01, 0x00, 7, 8];
    assert_eq!(decompress_lz77(&input).unwrap(), vec![7, 8]);
}

#[test]
fn wrong_signature_is_refused() {
    let input = vec![0x11, 0x04, 0x00, 0x00, 0x00, 0x41, 0x42, 0x43, 0x44];
    assert_eq!(decompress_lz77(&input), Err(RomError::Decompression));
}

#[test]
fn short_input_is_refused() {
    assert_eq!(decompress_lz77(&[]), Err(RomError::Decompression));
    assert_eq!(decompress_lz77(&[0x10]), Err(RomError::Decompression));
    assert_eq!(decompress_lz77(&[0x10, 0x00, 0x00]), Err(RomError::Decompression));
}

#[test]
fn input_that_ends_inside_a_back_reference_is_refused() {
    let input = vec![0x10, 0x08, 0x00, 0x00, 0x80, 0x00];
    assert_eq!(decompress_lz77(&input), Err(RomError::Decompression));
    let later = vec![0x10, 0x08, 0x00, 0x00, 0x40, 0x41, 0x20];
    assert_eq!(decompress_lz77(&later), Err(RomError::Decompression));
}
