use dsp_core::offline::{count_sign_changes, encode_float_wav, fnv1a64, little_endian_bytes};

fn negative_flags(samples: &[f32]) -> Vec<bool> {
    samples.iter().map(|sample| *sample < 0.0).collect()
}

fn bits(samples: &[f32]) -> Vec<u32> {
    samples.iter().map(|sample| sample.to_bits()).collect()
}

#[test]
fn metrics_and_hash_are_deterministic() {
    let samples = [-0.5f32, 0.25, -0.125, 0.0, 1.0];
    let first = fnv1a64(&little_endian_bytes(&bits(&samples)));
    let second = fnv1a64(&little_endian_bytes(&bits(&samples)));
    assert_eq!(first, second);
    assert_eq!(little_endian_bytes(&bits(&samples)).len(), 4 * 5);
    assert_eq!(count_sign_changes(&negative_flags(&samples)), 3);
    assert_ne!(first, 0);
}

#[test]
fn wav_header_describes_float32_mono_samples() {
    let wav = encode_float_wav(44_100, &bits(&[0.25, -0.5]));
    assert_eq!(&wav[0..4], b"RIFF");
    assert_eq!(&wav[8..12], b"WAVE");
    assert_eq!(u16::from_le_bytes([wav[20], wav[21]]), 3);
    assert_eq!(u16::from_le_bytes([wav[22], wav[23]]), 1);
    assert_eq!(u32::from_le_bytes(wav[24..28].try_into().unwrap()), 44_100);
    assert_eq!(&wav[36..40], b"fact");
    assert_eq!(u32::from_le_bytes(wav[44..48].try_into().unwrap()), 2);
    assert_eq!(u32::from_le_bytes(wav[52..56].try_into().unwrap()), 8);
    assert_eq!(&wav[56..60], &0.25f32.to_le_bytes());
}

#[test]
fn wav_sizes_rates_and_samples_read_back() {
    let samples = [1.0f32, -2.5, 0.0];
    let wav = encode_float_wav(48_000, &bits(&samples));
    assert_eq!(wav.len(), 56 + 12);
    assert_eq!(u32::from_le_bytes(wav[4..8].try_into().unwrap()), (wav.len() - 8) as u32);
    assert_eq!(&wav[12..16], b"fmt ");
    assert_eq!(u32::from_le_bytes(wav[16..20].try_into().unwrap()), 16);
    assert_eq!(u32::from_le_bytes(wav[28..32].try_into().unwrap()), 192_000);
    assert_eq!(u16::from_le_bytes([wav[32], wav[33]]), 4);
    assert_eq!(u16::from_le_bytes([wav[34], wav[35]]), 32);
    assert_eq!(u32::from_le_bytes(wav[40..44].try_into().unwrap()), 4);
    assert_eq!(&wav[48..52], b"data");
    for (index, sample) in samples.iter().enumerate() {
        let at = 56 + 4 * index;
        let stored = f32::from_le_bytes(wav[at..at + 4].try_into().unwrap());
        assert_eq!(stored.to_bits(), sample.to_bits());
    }
}

#[test]
fn empty_wav_is_a_bare_header() {
    let wav = encode_float_wav(8_000, &[]);
    assert_eq!(wav.len(), 56);
    assert_eq!(u32::from_le_bytes(wav[4..8].try_into().unwrap()), 48);
    assert_eq!(u32::from_le_bytes(wav[44..48].try_into().unwrap()), 0);
    assert_eq!(u32::from_le_bytes(wav[52..56].try_into().unwrap()), 0);
}

#[test]
fn fnv1a64_matches_reference_vectors() {
    assert_eq!(fnv1a64(&[]), 0xcbf2_9ce4_8422_2325);
    assert_eq!(fnv1a64(b"a"), 0xaf63_dc4c_8601_ec8c);
    assert_eq!(fnv1a64(b"foobar"), 0x8594_4171_f739_67e8);
}

#[test]
fn little_endian_bytes_put_low_byte_first() {
    assert_eq!(little_endian_bytes(&[0x0102_0304, 0xa0b0_c0d0]), vec![4, 3, 2, 1, 0xd0, 0xc0, 0xb0, 0xa0]);
    assert_eq!(little_endian_bytes(&[]), Vec::<u8>::new());
    assert_eq!(little_endian_bytes(&bits(&[0.25])), 0.25f32.to_le_bytes().to_vec());
}

#[test]
fn sign_changes_of_short_and_constant_blocks() {
    assert_eq!(count_sign_changes(&[]), 0);
    assert_eq!(count_sign_changes(&[true]), 0);
    assert_eq!(count_sign_changes(&[false, false, false]), 0);
    assert_eq!(count_sign_changes(&[true, false, true, false]), 3);
    // A zero sample counts as non-negative.
    assert_eq!(count_sign_changes(&negative_flags(&[0.0, -0.0, 0.0])), 0);
}
