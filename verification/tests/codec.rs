//! End-to-end tests running the real codec libraries behind the verified
//! front-end.

use blockdec::errors::DecompressError;
use blockdec::lz4;
use blockdec::lzo;

fn sample_bytes(len: usize) -> Vec<u8> {
    (0..len).map(|i| ((i * 7 + i / 13) % 251) as u8).collect()
}

// ---- LZ4 ----

#[test]
fn lz4_known_size_roundtrip() {
    let data = sample_bytes(500);
    let compressed = lz4_flex::block::compress(&data);
    let out = lz4::decompress(&compressed, data.len() as isize).unwrap();
    assert_eq!(out, data);
}

#[test]
fn lz4_discovery_roundtrip() {
    let data = sample_bytes(500);
    let compressed = lz4_flex::block::compress(&data);
    let out = lz4::decompress(&compressed, -1).unwrap();
    assert_eq!(out, data);
}

#[test]
fn lz4_discovery_matches_known_size() {
    let data = sample_bytes(2000);
    let compressed = lz4_flex::block::compress(&data);
    let known = lz4::decompress(&compressed, data.len() as isize).unwrap();
    let discovered = lz4::decompress(&compressed, -1).unwrap();
    assert_eq!(known, discovered);
}

#[test]
fn lz4_discovery_grows_past_initial_bound() {
    // Highly compressible data: the compressed block is far smaller than the
    // decoded output, so the first size-based candidate is too small and the
    // retry path must run.
    let data = vec![0u8; 100_000];
    let compressed = lz4_flex::block::compress(&data);
    assert!(compressed.len() < 1000);
    let out = lz4::decompress(&compressed, -1).unwrap();
    assert_eq!(out, data);
}

#[test]
fn lz4_literal_block_exact_value() {
    // Token 0x40: four literals, then end of input.
    let block = [0x40u8, b'x', b'y', b'z', b'w'];
    assert_eq!(lz4::decompress(&block, 4).unwrap(), b"xyzw");
    assert_eq!(lz4::decompress(&block, -1).unwrap(), b"xyzw");
}

#[test]
fn lz4_empty_block() {
    // A lone zero token decodes to the empty buffer.
    let block = [0x00u8];
    assert_eq!(lz4::decompress(&block, 0).unwrap(), Vec::<u8>::new());
    assert_eq!(lz4::decompress(&block, -1).unwrap(), Vec::<u8>::new());
}

#[test]
fn lz4_known_size_too_small_is_decode_error() {
    let data = sample_bytes(500);
    let compressed = lz4_flex::block::compress(&data);
    let r = lz4::decompress(&compressed, 10);
    assert!(matches!(r, Err(DecompressError::Decode(_))));
}

#[test]
fn lz4_malformed_input_is_decode_error() {
    assert!(matches!(lz4::decompress(&[], -1), Err(DecompressError::Decode(_))));
    assert!(matches!(lz4::decompress(&[0xF0], 255), Err(DecompressError::Decode(_))));
}

#[test]
fn lz4_required_size_over_ceiling_is_output_too_large() {
    // One match instruction whose extended length claims ~1.09 GiB of output:
    // the codec reports that required size, which lies past the one-gibibyte
    // ceiling, so discovery mode gives up instead of allocating.
    let mut input = vec![0x0Fu8, 0x01, 0x00];
    input.extend(std::iter::repeat(0xFF).take(4_300_000));
    input.push(0x00);
    let r = lz4::decompress(&input, -1);
    assert!(matches!(r, Err(DecompressError::OutputTooLarge)));
}

#[test]
fn lz4_repeated_calls_are_identical() {
    let data = sample_bytes(300);
    let compressed = lz4_flex::block::compress(&data);
    let a = lz4::decompress(&compressed, -1).unwrap();
    let b = lz4::decompress(&compressed, -1).unwrap();
    assert_eq!(a, b);
    let c = lz4::decompress_to_unknown_size(&compressed).unwrap();
    assert_eq!(a, c);
}

// ---- LZO ----

#[test]
fn lzo_header_recovers_test_bytes() {
    // Header: marker 0xF0, little-endian length 4; payload: a four-byte
    // literal run ("test") followed by the stream terminator.
    let input = [
        0xF0u8, 0x04, 0x00, 0x00, 0x00, 21, b't', b'e', b's', b't', 0x11, 0x00, 0x00,
    ];
    let out = lzo::decompress(&input, true, -1).unwrap();
    assert_eq!(out, b"test");
}

#[test]
fn lzo_header_marker_f1_accepted() {
    let input = [
        0xF1u8, 0x04, 0x00, 0x00, 0x00, 21, b't', b'e', b's', b't', 0x11, 0x00, 0x00,
    ];
    let out = lzo::decompress(&input, true, 0).unwrap();
    assert_eq!(out, b"test");
}

#[test]
fn lzo_header_roundtrip_with_compressor() {
    let data = sample_bytes(4096);
    let compressed = lzokay_native::compress(&data).unwrap();
    let mut input = vec![0xF0u8];
    input.extend((data.len() as u32).to_le_bytes());
    input.extend(&compressed);
    let out = lzo::decompress(&input, true, -1).unwrap();
    assert_eq!(out, data);
}

#[test]
fn lzo_bad_marker_is_invalid_header() {
    let input = [0x00u8; 12];
    assert!(matches!(lzo::decompress(&input, true, -1), Err(DecompressError::InvalidHeader)));
}

#[test]
fn lzo_short_input_is_invalid_header() {
    let input = [0xF0u8, 0x04, 0x00, 0x00, 0x00, 21, b't'];
    assert!(matches!(lzo::decompress(&input, true, -1), Err(DecompressError::InvalidHeader)));
}

#[test]
fn lzo_header_length_mismatch_is_decode_error() {
    // Structurally fine header, but the length field (9) disagrees with the
    // four bytes the payload actually encodes.
    let input = [
        0xF0u8, 0x09, 0x00, 0x00, 0x00, 21, b't', b'e', b's', b't', 0x11, 0x00, 0x00,
    ];
    assert!(matches!(lzo::decompress(&input, true, -1), Err(DecompressError::Decode(_))));
}

#[test]
fn lzo_buflen_exact_recovers_bytes() {
    let data = sample_bytes(64);
    let compressed = lzokay_native::compress(&data).unwrap();
    let out = lzo::decompress(&compressed, false, 64).unwrap();
    assert_eq!(out, data);
}

#[test]
fn lzo_buflen_too_small_is_decode_error() {
    let data = sample_bytes(64);
    let compressed = lzokay_native::compress(&data).unwrap();
    let r = lzo::decompress(&compressed, false, 32);
    assert!(matches!(r, Err(DecompressError::Decode(_))));
}

#[test]
fn lzo_negative_buflen_decodes_unbounded() {
    let data = sample_bytes(777);
    let compressed = lzokay_native::compress(&data).unwrap();
    let out = lzo::decompress(&compressed, false, -1).unwrap();
    assert_eq!(out, data);
}

#[test]
fn lzo_truncated_stream_is_decode_error() {
    let data = sample_bytes(256);
    let compressed = lzokay_native::compress(&data).unwrap();
    let r = lzo::decompress(&compressed[..compressed.len() - 1], false, -1);
    assert!(matches!(r, Err(DecompressError::Decode(_))));
}

#[test]
fn lzo_overlong_back_reference_is_decode_error() {
    // Four literals, then a copy instruction reaching 2043 bytes back into
    // only four bytes of output: structurally invalid, rejected before the
    // codec ever sees it.
    let input = [0x01u8, b'a', b'b', b'c', b'd', 0x48, 0xFF];
    let r = lzo::decompress(&input, false, -1);
    assert!(matches!(r, Err(DecompressError::Decode(_))));
}

#[test]
fn lzo_repeated_calls_are_identical() {
    let data = sample_bytes(1024);
    let compressed = lzokay_native::compress(&data).unwrap();
    let a = lzo::decompress(&compressed, false, -1).unwrap();
    let b = lzo::decompress(&compressed, false, -1).unwrap();
    assert_eq!(a, b);
}

#[test]
fn lzo_validator_matches_real_streams() {
    let data = sample_bytes(2048);
    let compressed = lzokay_native::compress(&data).unwrap();
    assert!(lzo::lzo_stream_valid(&compressed));
    assert!(!lzo::lzo_stream_valid(&compressed[..compressed.len() - 1]));
    assert!(!lzo::lzo_stream_valid(&[]));
}

#[test]
fn lzo_parse_header_fields() {
    let input = [0xF1u8, 0x0A, 0x00, 0x01, 0x00, 9, 9, 9];
    let h = lzo::parse_header(&input).unwrap();
    assert_eq!(h.marker, 0xF1);
    assert_eq!(h.length, 10 + 65536);
    assert!(matches!(
        lzo::parse_header(&[0xEFu8, 0, 0, 0, 0, 0, 0, 0]),
        Err(DecompressError::InvalidHeader)
    ));
}

#[test]
fn lzo_trailing_bytes_after_terminator_are_ignored() {
    let data = sample_bytes(100);
    let mut compressed = lzokay_native::compress(&data).unwrap();
    compressed.extend([1u8, 2, 3, 4]);
    assert!(lzo::lzo_stream_valid(&compressed));
    assert_eq!(lzo::decompress(&compressed, false, -1).unwrap(), data);
}

#[test]
fn lzo_validator_agrees_with_codec_on_mutated_streams() {
    // Mutate a real compressed stream at every byte position and truncate it
    // at every length; whenever the validator still accepts a mutant, the
    // codec must decode it without complaint and agree with the library.
    let data = sample_bytes(512);
    let compressed = lzokay_native::compress(&data).unwrap();
    for pos in 0..compressed.len() {
        for delta in [1u8, 0x7F, 0xFF] {
            let mut mutant = compressed.clone();
            mutant[pos] = mutant[pos].wrapping_add(delta);
            if lzo::lzo_stream_valid(&mutant) {
                let direct = lzokay_native::decompress_all(&mutant, None).unwrap();
                let ours = lzo::decompress(&mutant, false, -1).unwrap();
                assert_eq!(direct, ours);
            } else {
                assert!(matches!(
                    lzo::decompress(&mutant, false, -1),
                    Err(DecompressError::Decode(_))
                ));
            }
        }
    }
    for end in 0..compressed.len() {
        if lzo::lzo_stream_valid(&compressed[..end]) {
            let direct = lzokay_native::decompress_all(&compressed[..end], None).unwrap();
            assert_eq!(direct, lzo::decompress(&compressed[..end], false, -1).unwrap());
        }
    }
}

#[test]
fn lz4_oversized_capacity_still_returns_exact_bytes() {
    let data = sample_bytes(300);
    let compressed = lz4_flex::block::compress(&data);
    let out = lz4::decompress(&compressed, (data.len() + 100) as isize).unwrap();
    assert_eq!(out, data);
}
