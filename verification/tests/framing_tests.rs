use bolt_driver::chunk::{chunk_message, unchunk_message};
use bolt_driver::connection::{frame_message, parse_frame};
use bolt_driver::errors::Error;
use bolt_driver::handshake::{handshake_offer, parse_handshake_reply};
use bolt_driver::message::Message;
use bolt_driver::MAX_CHUNK_SIZE;

#[test]
fn empty_message_is_a_single_terminator() {
    assert_eq!(chunk_message(&vec![]), vec![0, 0]);
}

#[test]
fn small_payload_is_one_chunk_and_terminator() {
    assert_eq!(chunk_message(&vec![1, 2, 3]), vec![0, 3, 1, 2, 3, 0, 0]);
}

#[test]
fn full_chunk_payload_takes_one_data_chunk() {
    let payload = vec![7u8; MAX_CHUNK_SIZE];
    let framed = chunk_message(&payload);
    // one header, the payload, one terminator
    assert_eq!(framed.len(), 2 + MAX_CHUNK_SIZE + 2);
    assert_eq!(&framed[0..2], &[0xFF, 0xFD]);
    assert_eq!(&framed[framed.len() - 2..], &[0, 0]);
}

#[test]
fn one_byte_over_takes_two_data_chunks() {
    let payload = vec![7u8; MAX_CHUNK_SIZE + 1];
    let framed = chunk_message(&payload);
    // a full chunk, a one-byte chunk, one terminator
    assert_eq!(framed.len(), 2 + MAX_CHUNK_SIZE + 2 + 1 + 2);
    assert_eq!(&framed[0..2], &[0xFF, 0xFD]);
    let second = 2 + MAX_CHUNK_SIZE;
    assert_eq!(&framed[second..second + 2], &[0x00, 0x01]);
    assert_eq!(framed[second + 2], 7);
    assert_eq!(&framed[framed.len() - 2..], &[0, 0]);
}

#[test]
fn reassembly_inverts_framing() {
    for payload in [
        vec![],
        vec![9u8; 5],
        vec![1u8; MAX_CHUNK_SIZE],
        vec![2u8; MAX_CHUNK_SIZE + 1],
        vec![3u8; 2 * MAX_CHUNK_SIZE + 10],
    ] {
        let framed = chunk_message(&payload);
        let (back, used) = unchunk_message(&framed, 0).unwrap();
        assert_eq!(back, payload);
        assert_eq!(used, framed.len());
    }
}

#[test]
fn reassembly_rejects_truncated_frames() {
    assert!(matches!(
        unchunk_message(&vec![0], 0),
        Err(Error::DeserializationError(_))
    ));
    assert!(matches!(
        unchunk_message(&vec![0, 3, 1, 2], 0),
        Err(Error::DeserializationError(_))
    ));
}

#[test]
fn frames_and_parses_messages() {
    let framed = frame_message(&Message::Reset).unwrap();
    assert_eq!(framed, vec![0, 2, 0xB0, 0x0F, 0, 0]);
    let (back, used) = parse_frame(&framed, 0).unwrap();
    assert_eq!(used, framed.len());
    assert!(matches!(back, Message::Reset));

    // two frames in one buffer parse one after the other
    let mut buffer = frame_message(&Message::Commit).unwrap();
    let second = frame_message(&Message::Rollback).unwrap();
    buffer.extend_from_slice(&second);
    let (first, used) = parse_frame(&buffer, 0).unwrap();
    assert!(matches!(first, Message::Commit));
    let (next, used2) = parse_frame(&buffer, used).unwrap();
    assert!(matches!(next, Message::Rollback));
    assert_eq!(used + used2, buffer.len());
}

#[test]
fn offers_twenty_handshake_bytes() {
    let offer = handshake_offer();
    assert_eq!(
        offer,
        vec![
            0x60, 0x60, 0xB0, 0x17, 0, 0, 0x04, 0x04, 0, 0, 0x03, 0x04, 0, 0, 0x00, 0x04, 0, 0, 0,
            0
        ]
    );
}

#[test]
fn accepts_only_offered_versions() {
    assert_eq!(parse_handshake_reply(&vec![0, 0, 4, 4]).unwrap(), 0x0404);
    assert_eq!(parse_handshake_reply(&vec![0, 0, 3, 4]).unwrap(), 0x0304);
    assert_eq!(parse_handshake_reply(&vec![0, 0, 0, 4]).unwrap(), 0x0004);
    assert!(matches!(
        parse_handshake_reply(&vec![0, 0, 0, 0]),
        Err(Error::UnsupportedVersion(_))
    ));
    assert!(matches!(
        parse_handshake_reply(&vec![0, 0, 1, 4]),
        Err(Error::UnsupportedVersion(_))
    ));
}
