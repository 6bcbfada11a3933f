use mediafx::layout::RenderSize;
use mediafx::message::{RenderAck, RenderData, RenderFrame, RenderInitialize};
use mediafx::wire::{
    decode_ack, decode_frame, decode_initialize, encode_ack, encode_frame, encode_initialize,
    DecodeError,
};

fn data(time: f64, p1: f64, p2: f64, p3: f64) -> RenderData {
    RenderData {
        time: time.to_bits(),
        param1: p1.to_bits(),
        param2: p2.to_bits(),
        param3: p3.to_bits(),
    }
}

#[test]
fn ack_ok_bytes() {
    assert_eq!(encode_ack(&RenderAck::ok()), vec![0]);
}

#[test]
fn ack_error_bytes() {
    let bytes = encode_ack(&RenderAck::failed("boom".to_string()));
    assert_eq!(bytes, vec![1, 4, b'b', b'o', b'o', b'm']);
}

#[test]
fn ack_round_trip() {
    for ack in [RenderAck::ok(), RenderAck::failed("boom".to_string()), RenderAck::failed(String::new())] {
        let mut bytes = encode_ack(&ack);
        let len = bytes.len();
        bytes.extend_from_slice(&[7, 7]);
        let (decoded, used) = decode_ack(&bytes).unwrap();
        assert_eq!(used, len);
        assert_eq!(decoded.error, ack.error);
    }
}

#[test]
fn ack_round_trip_non_ascii() {
    let message = "échec ✗ 失败".to_string();
    let bytes = encode_ack(&RenderAck::failed(message.clone()));
    assert_eq!(bytes[1] as usize, message.len());
    let (decoded, used) = decode_ack(&bytes).unwrap();
    assert_eq!(used, bytes.len());
    assert_eq!(decoded.error, Some(message));
}

#[test]
fn ack_round_trip_long_message() {
    let message = "x".repeat(300);
    let bytes = encode_ack(&RenderAck::failed(message.clone()));
    assert_eq!(&bytes[..4], &[1, 251, 44, 1]);
    let (decoded, used) = decode_ack(&bytes).unwrap();
    assert_eq!(used, 304);
    assert_eq!(decoded.error, Some(message));
}

#[test]
fn ack_decode_errors() {
    assert_eq!(decode_ack(&[]).unwrap_err(), DecodeError::Truncated);
    assert_eq!(decode_ack(&[1]).unwrap_err(), DecodeError::Truncated);
    assert_eq!(decode_ack(&[1, 5, b'a']).unwrap_err(), DecodeError::Truncated);
    assert_eq!(decode_ack(&[1, 251, 1]).unwrap_err(), DecodeError::Truncated);
    assert_eq!(decode_ack(&[2]).unwrap_err(), DecodeError::Malformed);
    assert_eq!(decode_ack(&[1, 255]).unwrap_err(), DecodeError::Malformed);
    assert_eq!(decode_ack(&[1, 1, 0xff]).unwrap_err(), DecodeError::Malformed);
}

#[test]
fn initialize_bytes() {
    let message = RenderInitialize::new(RenderSize::new(4, 1, 2), "id".to_string(), "cfg".to_string());
    let bytes = encode_initialize(&message);
    assert_eq!(bytes, vec![4, 1, 2, 2, b'i', b'd', 3, b'c', b'f', b'g']);
}

#[test]
fn initialize_wide_dimensions() {
    let message = RenderInitialize::new(RenderSize::new(1024, 70000, 3), "/shm".to_string(), String::new());
    let bytes = encode_initialize(&message);
    assert_eq!(&bytes[..9], &[251, 0x00, 0x04, 252, 0x70, 0x11, 0x01, 0x00, 3]);
    let (decoded, used) = decode_initialize(&bytes).unwrap();
    assert_eq!(used, bytes.len());
    assert_eq!(decoded.size(), &RenderSize::new(1024, 70000, 3));
    assert_eq!(decoded.shmem_id(), "/shm");
    assert_eq!(decoded.config(), "");
}

#[test]
fn initialize_round_trip() {
    let message = RenderInitialize::new(RenderSize::new(640, 480, 1), "mediafx_ab12".to_string(), "{\"k\": 1}".to_string());
    let mut bytes = encode_initialize(&message);
    let len = bytes.len();
    bytes.push(0);
    let (decoded, used) = decode_initialize(&bytes).unwrap();
    assert_eq!(used, len);
    assert_eq!(decoded.size(), message.size());
    assert_eq!(decoded.shmem_id(), message.shmem_id());
    assert_eq!(decoded.config(), message.config());
}

#[test]
fn initialize_decode_errors() {
    assert_eq!(decode_initialize(&[4, 1]).unwrap_err(), DecodeError::Truncated);
    assert_eq!(decode_initialize(&[4, 1, 2, 2, b'i']).unwrap_err(), DecodeError::Truncated);
    assert_eq!(decode_initialize(&[0, 1, 2, 0, 0]).unwrap_err(), DecodeError::Malformed);
    assert_eq!(decode_initialize(&[4, 0, 2, 0, 0]).unwrap_err(), DecodeError::Malformed);
    assert_eq!(decode_initialize(&[253, 0, 0, 0, 0, 1, 0, 0, 0, 1, 2, 0, 0]).unwrap_err(), DecodeError::Malformed);
    assert_eq!(decode_initialize(&[4, 1, 2, 1, 0xc3, 0]).unwrap_err(), DecodeError::Malformed);
}

#[test]
fn render_request_bytes() {
    let bytes = encode_frame(&RenderFrame::Render(data(1.5, 0.0, 0.0, 0.0)));
    assert_eq!(bytes.len(), 33);
    assert_eq!(bytes[0], 0);
    assert_eq!(&bytes[1..9], &1.5f64.to_le_bytes());
    assert_eq!(&bytes[9..33], &[0u8; 24]);
}

#[test]
fn terminate_bytes() {
    assert_eq!(encode_frame(&RenderFrame::Terminate), vec![1]);
}

#[test]
fn frame_round_trip() {
    for frame in [
        RenderFrame::Render(data(0.25, -1.0, f64::MAX, 3.0e-300)),
        RenderFrame::Render(RenderData { time: u64::MAX, param1: 1, param2: 0x0123_4567_89ab_cdef, param3: 0 }),
        RenderFrame::Terminate,
    ] {
        let mut bytes = encode_frame(&frame);
        let len = bytes.len();
        bytes.extend_from_slice(&[1, 2, 3]);
        assert_eq!(decode_frame(&bytes).unwrap(), (frame, len));
    }
}

#[test]
fn frame_decode_errors() {
    assert_eq!(decode_frame(&[]).unwrap_err(), DecodeError::Truncated);
    assert_eq!(decode_frame(&[0, 1, 2, 3]).unwrap_err(), DecodeError::Truncated);
    assert_eq!(decode_frame(&[2]).unwrap_err(), DecodeError::Malformed);
    assert_eq!(decode_frame(&[254]).unwrap_err(), DecodeError::Malformed);
}
