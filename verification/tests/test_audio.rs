use terminator::audio::{encode_base64, push_levels, MAX_LEVELS};

/// Test base64 encoding of PCM data.
#[test]
fn test_pcm_base64_roundtrip() {
    let samples: Vec<f32> = vec![0.0, 0.5, -0.5, 1.0, -1.0];
    let bytes: Vec<u8> = samples.iter().flat_map(|s| s.to_le_bytes()).collect();
    let encoded = encode_base64(&bytes);
    let decoded = base64::Engine::decode(&base64::engine::general_purpose::STANDARD, &encoded).unwrap();

    let roundtrip: Vec<f32> = decoded
        .chunks_exact(4)
        .map(|c| f32::from_le_bytes(c.try_into().unwrap()))
        .collect();

    assert_eq!(samples, roundtrip);
}

#[test]
fn base64_known_vectors() {
    assert_eq!(encode_base64(b""), "");
    assert_eq!(encode_base64(b"M"), "TQ==");
    assert_eq!(encode_base64(b"Ma"), "TWE=");
    assert_eq!(encode_base64(b"Man"), "TWFu");
    assert_eq!(encode_base64(&[0xff, 0xfe, 0x00, 0x3f]), "//4APw==");
}

#[test]
fn base64_length_is_four_per_started_group() {
    for n in 0..20usize {
        let bytes = vec![7u8; n];
        let expected = if n % 3 == 0 { n / 3 * 4 } else { n / 3 * 4 + 4 };
        assert_eq!(encode_base64(&bytes).len(), expected);
    }
}

#[test]
fn levels_take_every_quarter_of_a_block() {
    let mut levels: Vec<i32> = vec![];
    let block: Vec<i32> = (0..8).collect();
    push_levels(&mut levels, &block);
    assert_eq!(levels, vec![0, 2, 4, 6]);
}

#[test]
fn levels_small_block_takes_every_sample() {
    let mut levels: Vec<i32> = vec![9];
    push_levels(&mut levels, &[1, 2, 3]);
    assert_eq!(levels, vec![9, 1, 2, 3]);
}

#[test]
fn levels_empty_block_changes_nothing() {
    let mut levels: Vec<i32> = vec![1, 2];
    push_levels(&mut levels, &[]);
    assert_eq!(levels, vec![1, 2]);
}

#[test]
fn levels_keep_the_most_recent() {
    let mut levels: Vec<i32> = (0..199).collect();
    push_levels(&mut levels, &[1000, 1001, 1002]);
    assert_eq!(levels.len(), MAX_LEVELS);
    assert_eq!(levels[0], 2);
    assert_eq!(&levels[197..], &[1000, 1001, 1002]);
}

#[test]
fn levels_stride_with_remainder() {
    let mut levels: Vec<i32> = vec![];
    let block: Vec<i32> = (0..9).collect();
    push_levels(&mut levels, &block);
    // stride 2: 0, 2, 4, 6, 8
    assert_eq!(levels, vec![0, 2, 4, 6, 8]);
}

#[test]
fn encoding_decodes_back_for_every_length() {
    for n in 0..40usize {
        let bytes: Vec<u8> = (0..n).map(|i| (i * 37 % 256) as u8).collect();
        let encoded = encode_base64(&bytes);
        let decoded =
            base64::Engine::decode(&base64::engine::general_purpose::STANDARD, &encoded).unwrap();
        assert_eq!(decoded, bytes);
    }
    let one: Vec<u8> = 1.0f32.to_le_bytes().to_vec();
    assert_eq!(encode_base64(&one), "AACAPw==");
}
