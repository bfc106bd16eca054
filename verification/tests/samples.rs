use flow_linux::samples::{append_f32_samples, resample_ranges, wav_bytes};

#[test]
fn decodes_pipewire_f32_samples_across_partial_reads() {
    let expected = [0.25f32, -0.5f32];
    let encoded: Vec<u8> = expected
        .iter()
        .flat_map(|sample| sample.to_le_bytes())
        .collect();
    let mut output = Vec::new();
    let mut pending = Vec::new();
    append_f32_samples(&mut output, &mut pending, &encoded[..5]);
    assert_eq!(output, vec![0.25f32.to_bits()]);
    append_f32_samples(&mut output, &mut pending, &encoded[5..]);
    assert_eq!(output, expected.map(f32::to_bits));
    assert!(pending.is_empty());
}

#[test]
fn split_reads_decode_like_one_read() {
    let values = [1.5f32, -0.125, 3.0e-5, 0.0];
    let encoded: Vec<u8> = values.iter().flat_map(|v| v.to_le_bytes()).collect();
    for cut in 0..=encoded.len() {
        let mut out = Vec::new();
        let mut pending = Vec::new();
        append_f32_samples(&mut out, &mut pending, &encoded[..cut]);
        append_f32_samples(&mut out, &mut pending, &encoded[cut..]);
        assert_eq!(out, values.map(f32::to_bits));
        assert!(pending.is_empty());
    }
}

#[test]
fn resampling_ranges_average_whole_groups() {
    assert_eq!(resample_ranges(6, 48_000), vec![(0, 3), (3, 6)]);
    assert_eq!(resample_ranges(3, 8_000), vec![(0, 1), (0, 1), (1, 2), (1, 2), (2, 3), (2, 3)]);
    assert_eq!(resample_ranges(10, 0), vec![]);
    assert_eq!(resample_ranges(0, 48_000), vec![]);
    assert_eq!(resample_ranges(2, 44_100), vec![]);
}

#[test]
fn wav_has_mono_16khz_header() {
    let b = wav_bytes(&[16384, -16384]);
    assert_eq!(b.len(), 48);
    assert_eq!(&b[0..4], b"RIFF");
    assert_eq!(u32::from_le_bytes(b[4..8].try_into().unwrap()), 40);
    assert_eq!(&b[8..16], b"WAVEfmt ");
    assert_eq!(u16::from_le_bytes(b[22..24].try_into().unwrap()), 1);
    assert_eq!(u32::from_le_bytes(b[24..28].try_into().unwrap()), 16000);
    assert_eq!(u32::from_le_bytes(b[28..32].try_into().unwrap()), 32000);
    assert_eq!(&b[36..40], b"data");
    assert_eq!(u32::from_le_bytes(b[40..44].try_into().unwrap()), 4);
    assert_eq!(i16::from_le_bytes(b[44..46].try_into().unwrap()), 16384);
    assert_eq!(i16::from_le_bytes(b[46..48].try_into().unwrap()), -16384);
}
