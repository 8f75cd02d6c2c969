use sensor_audio::AudioFrame;
use sensor_audio::DecodeError;
use sensor_audio::RawType;
use sensor_audio::SerializationError;
use sensor_audio::build_frame;
use sensor_audio::deserialize;
use sensor_audio::serialize;

fn frame_of(channels: Vec<Vec<i16>>, rate: u32) -> AudioFrame {
    let channel_count = channels.len();
    let sample_count = if channel_count > 0 { channels[0].len() } else { 0 };
    AudioFrame {
        channel_count,
        sample_count,
        sample_rate: rate,
        raw_type: RawType::S16Le,
        samples: channels,
    }
}

#[test]
fn round_trip_reproduces_every_field() {
    let frame = frame_of(vec![vec![1, -2, 300], vec![-400, 5, 0x7fff]], 16384);
    let bytes = serialize(&frame).expect("well-formed frame serializes");
    let back = deserialize(&bytes).expect("canonical envelope decodes");
    assert_eq!(back.channel_count, 2);
    assert_eq!(back.sample_count, 3);
    assert_eq!(back.sample_rate, 16384);
    assert_eq!(back.raw_type, RawType::S16Le);
    assert_eq!(back.samples, vec![vec![1, -2, 300], vec![-400, 5, 0x7fff]]);
    assert_eq!(back, frame);
}

#[test]
fn round_trip_extreme_samples() {
    let frame = frame_of(vec![vec![i16::MIN, i16::MAX, 0, -1]], u32::MAX);
    let bytes = serialize(&frame).expect("serializes");
    assert_eq!(deserialize(&bytes).expect("decodes"), frame);
}

#[test]
fn round_trip_empty_frame() {
    let frame = frame_of(vec![], 8000);
    let bytes = serialize(&frame).expect("serializes");
    assert_eq!(bytes.len(), 25);
    assert_eq!(deserialize(&bytes).expect("decodes"), frame);
}

#[test]
fn serialization_is_deterministic() {
    let a = frame_of(vec![vec![7, -7], vec![9, -9]], 44100);
    let b = frame_of(vec![vec![7, -7], vec![9, -9]], 44100);
    assert_eq!(serialize(&a).unwrap(), serialize(&b).unwrap());
}

#[test]
fn exact_wire_bytes() {
    let frame = frame_of(vec![vec![-2]], 3);
    let bytes = serialize(&frame).unwrap();
    let mut expected = vec![1u8];
    expected.extend_from_slice(&[1, 0, 0, 0, 0, 0, 0, 0]);
    expected.extend_from_slice(&[1, 0, 0, 0, 0, 0, 0, 0]);
    expected.extend_from_slice(&[3, 0, 0, 0, 0, 0, 0, 0]);
    expected.extend_from_slice(&[0xfe, 0xff]);
    assert_eq!(bytes, expected);
}

#[test]
fn mismatched_channel_lengths_are_fatal() {
    let mut frame = frame_of(vec![vec![1, 2], vec![3, 4]], 100);
    frame.samples[1].pop();
    assert_eq!(serialize(&frame), Err(SerializationError::InvalidFrame));
}

#[test]
fn wrong_channel_count_is_fatal() {
    let mut frame = frame_of(vec![vec![1], vec![2]], 100);
    frame.channel_count = 3;
    assert_eq!(serialize(&frame), Err(SerializationError::InvalidFrame));
}

#[test]
fn decode_rejects_short_buffer() {
    assert_eq!(deserialize(&vec![1u8; 10]), Err(DecodeError::TooShort));
}

#[test]
fn decode_rejects_unknown_tag() {
    let frame = frame_of(vec![vec![5]], 9);
    let mut bytes = serialize(&frame).unwrap();
    bytes[0] = 9;
    assert_eq!(deserialize(&bytes), Err(DecodeError::UnknownTag));
}

#[test]
fn decode_rejects_truncated_payload() {
    let frame = frame_of(vec![vec![5, 6]], 9);
    let mut bytes = serialize(&frame).unwrap();
    bytes.pop();
    assert_eq!(deserialize(&bytes), Err(DecodeError::LengthMismatch));
}

#[test]
fn builder_deinterleaves_stereo() {
    let raw: Vec<i16> = vec![10, -10, 20, -20, 30, -30];
    let frame = build_frame(&raw, 3, 2, 48000).expect("counts match buffer");
    assert_eq!(frame.channel_count, 2);
    assert_eq!(frame.sample_count, 3);
    assert_eq!(frame.sample_rate, 48000);
    assert_eq!(frame.samples, vec![vec![10, 20, 30], vec![-10, -20, -30]]);
}

#[test]
fn builder_rejects_mismatched_counts() {
    let raw: Vec<i16> = vec![1, 2, 3, 4, 5];
    assert!(build_frame(&raw, 3, 2, 48000).is_err());
}
