use wavemaker::errors::AudioError;
use wavemaker::wav::{encode, read, samples_as_i16, samples_as_u8, Config, Wave};

fn test_config() -> Config {
    // 16-bit mono at 8 Hz for one second: an 8-sample, 16-byte payload.
    Config::create(2, 1, 8, 16, 1)
}

#[test]
fn config_create_derives_sample_count() {
    let config = Config::create(2, 1, 44100, 16, 5);
    assert_eq!(config.sample_size, 2);
    assert_eq!(config.channels, 1);
    assert_eq!(config.sample_rate, 44100);
    assert_eq!(config.bits_per_sample, 16);
    assert_eq!(config.duration, 5);
    assert_eq!(config.nsamples, 220500);
}

#[test]
fn five_second_mono_file_sizes() {
    // sampleSize=2, channels=1, rate=44100, bits=16, duration=5s:
    // 220500 samples, 441000 data bytes, riff chunk size 441036,
    // 441044 bytes of file in all.
    let config = Config::create(2, 1, 44100, 16, 5);
    let payload = vec![0u8; 441000];
    let bytes = encode(&config, &payload).unwrap();
    assert_eq!(bytes.len(), 441044);
    let wave = read(&bytes).unwrap();
    assert_eq!(wave.header.riff_header.size, 441036);
    assert_eq!(wave.header.data_header.size, 441000);
    assert_eq!(wave.data.len(), 441000);
}

#[test]
fn header_bytes_exact_layout() {
    let config = test_config();
    let wave = Wave::new(&config);
    let bytes = wave.header.to_bytes();
    assert_eq!(bytes.len(), 44);
    assert_eq!(&bytes[0..4], &b"RIFF"[..]);
    // riff chunk size = 36 + 8 samples * 2 bytes = 52
    assert_eq!(&bytes[4..8], &52u32.to_le_bytes()[..]);
    assert_eq!(&bytes[8..12], &b"WAVE"[..]);
    assert_eq!(&bytes[12..16], &b"fmt "[..]);
    assert_eq!(&bytes[16..20], &16u32.to_le_bytes()[..]);
    // audio format 1 = PCM
    assert_eq!(&bytes[20..22], &1u16.to_le_bytes()[..]);
    assert_eq!(&bytes[22..24], &1u16.to_le_bytes()[..]);
    assert_eq!(&bytes[24..28], &8u32.to_le_bytes()[..]);
    // byte rate = channels * rate * sample size = 16
    assert_eq!(&bytes[28..32], &16u32.to_le_bytes()[..]);
    // block align = channels * sample size = 2
    assert_eq!(&bytes[32..34], &2u16.to_le_bytes()[..]);
    assert_eq!(&bytes[34..36], &16u16.to_le_bytes()[..]);
    assert_eq!(&bytes[36..40], &b"data"[..]);
    // data size = 8 samples * 2 bytes = 16
    assert_eq!(&bytes[40..44], &16u32.to_le_bytes()[..]);
}

#[test]
fn encode_decode_round_trip() {
    let config = test_config();
    let samples: Vec<i16> = vec![0, 10, -10, 32767, -32768, 1, -1, 255];
    let payload = samples_as_u8(&samples);
    let bytes = encode(&config, &payload).unwrap();
    let wave = read(&bytes).unwrap();
    assert_eq!(wave.header.riff_header.size, 52);
    assert_eq!(wave.header.fmt_chunk.size, 16);
    assert_eq!(wave.header.fmt_chunk.fmt_tag, 1);
    assert_eq!(wave.header.fmt_chunk.channels, 1);
    assert_eq!(wave.header.fmt_chunk.samples_per_sec, 8);
    assert_eq!(wave.header.fmt_chunk.bytes_per_sec, 16);
    assert_eq!(wave.header.fmt_chunk.block_align, 2);
    assert_eq!(wave.header.fmt_chunk.bits_per_sample, 16);
    assert_eq!(wave.header.data_header.size, 16);
    assert_eq!(wave.data, payload);
    assert_eq!(samples_as_i16(&wave.data).unwrap(), samples);
}

#[test]
fn encode_rejects_size_mismatch() {
    let config = test_config();
    let payload = vec![0u8; 15];
    assert_eq!(encode(&config, &payload), Err(AudioError::SizeMismatch));
}

#[test]
fn decode_rejects_short_buffer() {
    let bytes = vec![0u8; 43];
    assert_eq!(read(&bytes), Err(AudioError::TruncatedHeader));
}

#[test]
fn decode_rejects_corrupt_riff_tag() {
    // A corrupted "RIFF" tag is a FormatError, not a generic failure.
    let config = test_config();
    let mut bytes = encode(&config, &vec![0u8; 16]).unwrap();
    bytes[0] = b'X';
    assert_eq!(read(&bytes), Err(AudioError::FormatError));
}

#[test]
fn decode_rejects_corrupt_data_tag() {
    let config = test_config();
    let mut bytes = encode(&config, &vec![0u8; 16]).unwrap();
    bytes[36] = b'D';
    assert_eq!(read(&bytes), Err(AudioError::FormatError));
}

#[test]
fn decode_rejects_unexpected_fmt_size() {
    let config = test_config();
    let mut bytes = encode(&config, &vec![0u8; 16]).unwrap();
    bytes[16] = 18;
    assert_eq!(read(&bytes), Err(AudioError::UnsupportedFormat));
}

#[test]
fn decode_rejects_non_pcm_format() {
    let config = test_config();
    let mut bytes = encode(&config, &vec![0u8; 16]).unwrap();
    bytes[20] = 3;
    assert_eq!(read(&bytes), Err(AudioError::UnsupportedFormat));
}

#[test]
fn decode_rejects_truncated_payload() {
    let config = test_config();
    let bytes = encode(&config, &vec![7u8; 16]).unwrap();
    let short = &bytes[0..bytes.len() - 1];
    assert_eq!(read(short), Err(AudioError::TruncatedPayload));
}

#[test]
fn decode_ignores_surplus_bytes() {
    let config = test_config();
    let payload = vec![9u8; 16];
    let mut bytes = encode(&config, &payload).unwrap();
    bytes.push(0xAB);
    bytes.push(0xCD);
    let wave = read(&bytes).unwrap();
    assert_eq!(wave.data, payload);
}

#[test]
fn samples_pack_little_endian() {
    let packed = samples_as_u8(&[0x1234, -2]);
    assert_eq!(packed, vec![0x34, 0x12, 0xFE, 0xFF]);
}

#[test]
fn samples_round_trip() {
    let samples: Vec<i16> = vec![0, 1, -1, 32767, -32768, 12345, -12345];
    let packed = samples_as_u8(&samples);
    assert_eq!(packed.len(), 2 * samples.len());
    assert_eq!(samples_as_i16(&packed).unwrap(), samples);
}

#[test]
fn samples_reject_odd_byte_count() {
    assert_eq!(samples_as_i16(&[1u8, 2, 3]), Err(AudioError::MalformedPayload));
}
