use bytes::BytesMut;
use rustsmb_server::error::HandlerError;
use rustsmb_server::frame::{frame_message, read_outcome, try_parse_message, ReadOutcome};

#[test]
fn frames_round_trip() {
    let mut buf = BytesMut::new();
    buf.extend_from_slice(&frame_message(&[1, 2, 3]));
    buf.extend_from_slice(&frame_message(&[]));
    buf.extend_from_slice(&[0, 0]);
    assert_eq!(try_parse_message(&mut buf).unwrap(), Some(vec![1, 2, 3]));
    assert_eq!(try_parse_message(&mut buf).unwrap(), Some(vec![]));
    assert_eq!(try_parse_message(&mut buf).unwrap(), None);
    assert_eq!(&buf[..], &[0, 0]);
}

#[test]
fn long_frames_have_a_three_byte_length() {
    let message = vec![9u8; 0x01_02_03];
    let framed = frame_message(&message);
    assert_eq!(&framed[..4], &[0, 1, 2, 3]);
    let mut buf = BytesMut::from(&framed[..]);
    assert_eq!(try_parse_message(&mut buf).unwrap().unwrap().len(), 0x01_02_03);
    assert!(buf.is_empty());
}

#[test]
fn incomplete_frame_waits() {
    let mut buf = BytesMut::from(&[0u8, 0, 0, 5, 1, 2][..]);
    assert_eq!(try_parse_message(&mut buf).unwrap(), None);
    assert_eq!(buf.len(), 6, "nothing is taken before the frame is whole");
}

#[test]
fn end_of_stream_inside_a_frame_is_an_error() {
    let empty = BytesMut::new();
    assert!(matches!(read_outcome(0, &empty), Ok(ReadOutcome::Closed)));
    assert!(matches!(read_outcome(3, &empty), Ok(ReadOutcome::Received)));
    let partial = BytesMut::from(&[0u8, 0][..]);
    assert!(matches!(read_outcome(0, &partial), Err(HandlerError::Protocol(_))));
    assert!(matches!(read_outcome(2, &partial), Ok(ReadOutcome::Received)));
}
