use chat::codec::{FrameReader, FrameWriter};
use chat::sbmp::{build_frame, ContentType, Frame, Header, SBMPError, PROTOCOL_VERSION};

fn frame_of(payload: &[u8]) -> Frame {
    build_frame(ContentType::UTF8, payload).expect("payload fits")
}

#[test]
fn round_trip_frame() {
    let frame = frame_of(b"hello");
    let mut writer = FrameWriter::new(Vec::new());
    writer.write_frame(frame).expect("write succeeds");

    let mut reader = FrameReader::new(writer.take_bytes());
    let decoded = reader.read_frame().expect("decode succeeds");
    assert_eq!(decoded.get_header().content_type(), ContentType::UTF8);
    assert_eq!(decoded.get_header().version(), PROTOCOL_VERSION);
    assert_eq!(decoded.get_header().content_len(), 5);
    assert_eq!(decoded.get_payload(), b"hello".to_vec());
}

#[test]
fn round_trip_empty_payload() {
    let frame = frame_of(b"");
    let mut writer = FrameWriter::new(Vec::new());
    writer.write_frame(frame).expect("write succeeds");

    let mut reader = FrameReader::new(writer.take_bytes());
    let decoded = reader.read_frame().expect("decode succeeds");
    assert_eq!(decoded.get_header().content_len(), 0);
    assert_eq!(decoded.get_payload(), Vec::<u8>::new());
}

#[test]
fn wire_layout_is_exact() {
    let frame = frame_of(b"hi");
    let mut writer = FrameWriter::new(Vec::new());
    writer.write_frame(frame).expect("write succeeds");
    assert_eq!(
        writer.as_bytes().as_slice(),
        &[1u8, 0, 0, 0, 0, 2, b'h', b'i']
    );
}

#[test]
fn two_frames_in_order() {
    let mut writer = FrameWriter::new(Vec::new());
    writer.write_frame(frame_of(b"one")).expect("write succeeds");
    writer.write_frame(frame_of(b"two")).expect("write succeeds");

    let mut reader = FrameReader::new(writer.take_bytes());
    assert_eq!(reader.read_frame().expect("first frame").get_payload(), b"one".to_vec());
    assert_eq!(reader.read_frame().expect("second frame").get_payload(), b"two".to_vec());
    assert_eq!(reader.read_frame().unwrap_err(), SBMPError::UnexpectedEof);
}

#[test]
fn unsupported_version_rejected() {
    let mut reader = FrameReader::new(vec![2u8, 0, 0, 0, 0, 0]);
    assert_eq!(reader.read_frame().unwrap_err(), SBMPError::UnsupportedVersion);
}

#[test]
fn unsupported_version_consumes_no_payload() {
    // A stale-version header followed by what would be its payload: the
    // decoder consumes the six header bytes and leaves the payload bytes.
    let mut reader = FrameReader::new(vec![9u8, 0, 0, 0, 0, 2, 1, 0, 0, 0, 0, 0]);
    assert_eq!(reader.read_frame().unwrap_err(), SBMPError::UnsupportedVersion);
    // The next six bytes are an intact, well-formed empty frame.
    let next = reader.read_frame().expect("next frame decodes");
    assert_eq!(next.get_header().content_len(), 0);
}

#[test]
fn unknown_content_type_rejected() {
    let mut reader = FrameReader::new(vec![1u8, 7, 0, 0, 0, 0]);
    assert_eq!(reader.read_frame().unwrap_err(), SBMPError::UnknownContentType);
}

#[test]
fn eof_mid_header() {
    let mut reader = FrameReader::new(vec![1u8, 0, 0]);
    assert_eq!(reader.read_frame().unwrap_err(), SBMPError::UnexpectedEof);
}

#[test]
fn eof_mid_payload_is_all_or_nothing() {
    // The header declares five payload bytes but only three arrive before
    // the source ends: no short frame comes back.
    let mut reader = FrameReader::new(vec![1u8, 0, 0, 0, 0, 5, b'a', b'b', b'c']);
    assert_eq!(reader.read_frame().unwrap_err(), SBMPError::UnexpectedEof);
}

#[test]
fn frame_returned_once_whole_payload_available() {
    let mut writer = FrameWriter::new(Vec::new());
    writer.write_frame(frame_of(b"later")).expect("write succeeds");
    let bytes = writer.take_bytes();

    // The same declared length decodes as soon as all of it is available.
    let mut reader = FrameReader::new(bytes[..8].to_vec());
    assert_eq!(reader.read_frame().unwrap_err(), SBMPError::UnexpectedEof);
    let mut whole = FrameReader::new(bytes[..8].to_vec());
    whole.feed(&bytes[8..]);
    assert_eq!(whole.read_frame().expect("decodes").get_payload(), b"later".to_vec());
}

#[test]
fn header_try_new_validates_version() {
    assert!(Header::try_new(PROTOCOL_VERSION, ContentType::UTF8, 3).is_ok());
    assert_eq!(
        Header::try_new(2, ContentType::UTF8, 3).unwrap_err(),
        SBMPError::UnsupportedVersion
    );
}

#[test]
fn frame_try_new_validates_length() {
    let header = Header::try_new(PROTOCOL_VERSION, ContentType::UTF8, 3).expect("valid header");
    assert!(Frame::try_new(header, b"abc".to_vec()).is_ok());
    assert_eq!(
        Frame::try_new(header, b"ab".to_vec()).unwrap_err(),
        SBMPError::LengthMismatch
    );
}

#[test]
fn big_endian_length_field() {
    let payload = vec![0u8; 300];
    let frame = build_frame(ContentType::UTF8, &payload).expect("fits");
    let mut writer = FrameWriter::new(Vec::new());
    writer.write_frame(frame).expect("write succeeds");
    let bytes = writer.take_bytes();
    assert_eq!(&bytes[2..6], &[0u8, 0, 1, 44]);
}
