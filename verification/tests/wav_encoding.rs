use neolove::wav::{encode_wav_bytes, EncodeError};

fn le16(v: u16) -> [u8; 2] {
    [(v & 0xff) as u8, (v >> 8) as u8]
}

fn le32(v: u32) -> [u8; 4] {
    [
        (v & 0xff) as u8,
        ((v >> 8) & 0xff) as u8,
        ((v >> 16) & 0xff) as u8,
        ((v >> 24) & 0xff) as u8,
    ]
}

#[test]
fn stereo_file_has_the_plain_pcm_header_and_little_endian_samples() {
    let samples: Vec<i16> = vec![0, 1, -1, 32767];
    let bytes = encode_wav_bytes(44100, 2, &samples).unwrap();

    let mut expected: Vec<u8> = Vec::new();
    expected.extend_from_slice(b"RIFF");
    expected.extend_from_slice(&le32(36 + 8));
    expected.extend_from_slice(b"WAVE");
    expected.extend_from_slice(b"fmt ");
    expected.extend_from_slice(&le32(16));
    expected.extend_from_slice(&le16(1));
    expected.extend_from_slice(&le16(2));
    expected.extend_from_slice(&le32(44100));
    expected.extend_from_slice(&le32(44100 * 4));
    expected.extend_from_slice(&le16(4));
    expected.extend_from_slice(&le16(16));
    expected.extend_from_slice(b"data");
    expected.extend_from_slice(&le32(8));
    expected.extend_from_slice(&[0x00, 0x00, 0x01, 0x00, 0xff, 0xff, 0xff, 0x7f]);

    assert_eq!(bytes, expected);
}

#[test]
fn empty_buffer_encodes_to_a_header_only_file() {
    let samples: Vec<i16> = Vec::new();
    let bytes = encode_wav_bytes(8000, 1, &samples).unwrap();
    assert_eq!(bytes.len(), 44);
    assert_eq!(&bytes[0..4], b"RIFF");
    assert_eq!(&bytes[40..44], &le32(0));
}

#[test]
fn more_than_two_channels_use_the_extensible_header() {
    let samples: Vec<i16> = vec![1, 2, 3];
    let bytes = encode_wav_bytes(22050, 3, &samples).unwrap();
    assert_eq!(bytes.len(), 68 + 6);
    assert_eq!(&bytes[20..22], &le16(0xfffe));
}

#[test]
fn zero_channels_are_refused() {
    let samples: Vec<i16> = vec![1, 2];
    assert_eq!(encode_wav_bytes(44100, 0, &samples), Err(EncodeError::ZeroChannels));
}

#[test]
fn partial_last_frame_is_refused() {
    let samples: Vec<i16> = vec![1, 2, 3];
    assert_eq!(encode_wav_bytes(44100, 2, &samples), Err(EncodeError::Misaligned));
}
