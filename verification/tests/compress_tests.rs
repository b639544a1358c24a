use wvm_backfill::block::Block;

#[test]
fn compress_round_trip_empty_input() {
    let input: Vec<u8> = Vec::new();
    let compressed = Block::brotli_compress(&input);
    let decompressed = Block::brotli_decompress(&compressed).expect("a produced stream decodes");
    assert_eq!(decompressed, input);
}

#[test]
fn compress_round_trip_small_input() {
    let input: Vec<u8> = b"weave the chain back together".to_vec();
    let compressed = Block::brotli_compress(&input);
    let decompressed = Block::brotli_decompress(&compressed).expect("a produced stream decodes");
    assert_eq!(decompressed, input);
}

#[test]
fn compress_round_trip_input_beyond_window() {
    // Larger than the compressor's window (2^22 bytes at window size 22).
    let mut input: Vec<u8> = Vec::with_capacity(4_500_000);
    let mut state: u32 = 0x1234_5678;
    while input.len() < 4_500_000 {
        state = state.wrapping_mul(1_103_515_245).wrapping_add(12_345);
        input.push((state >> 16) as u8);
    }
    let compressed = Block::brotli_compress(&input);
    let decompressed = Block::brotli_decompress(&compressed).expect("a produced stream decodes");
    assert_eq!(decompressed, input);
}

#[test]
fn compression_shrinks_repetitive_payloads() {
    let input: Vec<u8> = vec![0x42; 100_000];
    let compressed = Block::brotli_compress(&input);
    assert!(compressed.len() < input.len());
}

#[test]
fn decompress_rejects_garbage() {
    assert!(Block::brotli_decompress(&[0xfe, 0xff, 0x13, 0x37, 0x00]).is_err());
}
