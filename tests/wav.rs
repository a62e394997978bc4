use ttsmate::tts::wav::{create_wav_file, decode_wav};

#[test]
fn header_of_four_byte_payload() {
    let out = create_wav_file(&[0, 0, 0, 0], 44100, 1);
    assert_eq!(out.len(), 48);
    assert_eq!(&out[0..4], b"RIFF");
    assert_eq!(&out[4..8], &40u32.to_le_bytes());
    assert_eq!(&out[8..12], b"WAVE");
    assert_eq!(&out[12..16], b"fmt ");
    assert_eq!(&out[16..20], &16u32.to_le_bytes());
    assert_eq!(&out[20..22], &1u16.to_le_bytes());
    assert_eq!(&out[22..24], &1u16.to_le_bytes());
    assert_eq!(&out[24..28], &44100u32.to_le_bytes());
    assert_eq!(&out[28..32], &88200u32.to_le_bytes());
    assert_eq!(&out[32..34], &2u16.to_le_bytes());
    assert_eq!(&out[34..36], &16u16.to_le_bytes());
    assert_eq!(&out[36..40], b"data");
    assert_eq!(&out[40..44], &4u32.to_le_bytes());
    assert_eq!(&out[44..48], &[0, 0, 0, 0]);
}

#[test]
fn stereo_header_fields() {
    let out = create_wav_file(&[1, 2, 3, 4], 48000, 2);
    assert_eq!(&out[22..24], &2u16.to_le_bytes());
    assert_eq!(&out[28..32], &192000u32.to_le_bytes());
    assert_eq!(&out[32..34], &4u16.to_le_bytes());
}

#[test]
fn round_trip_over_rates_and_channels() {
    let pcm: Vec<u8> = (0..37u32).map(|i| (i * 7 % 256) as u8).collect();
    for rate in [8000u32, 16000, 22050, 44100, 48000, 96000] {
        for channels in [1u16, 2] {
            let bytes = create_wav_file(&pcm, rate, channels);
            let back = decode_wav(&bytes).unwrap();
            assert_eq!(back.pcm, pcm);
            assert_eq!(back.sample_rate, rate);
            assert_eq!(back.channels, channels);
        }
    }
}

#[test]
fn decode_rejects_short_or_damaged_input() {
    assert!(decode_wav(&[0u8; 10]).is_none());
    let mut bytes = create_wav_file(&[1, 2], 8000, 1);
    bytes[0] = b'X';
    assert!(decode_wav(&bytes).is_none());
    let mut bytes = create_wav_file(&[1, 2], 8000, 1);
    bytes.push(0);
    assert!(decode_wav(&bytes).is_none());
}
