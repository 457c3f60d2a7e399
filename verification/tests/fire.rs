use bytes::{Bytes, BytesMut};
use pocket_relay_client_shared::fire::{FireCodec, Frame, FrameHeader, FrameType, MIN_HEADER_SIZE};

fn request() -> FrameHeader {
    FrameHeader {
        length: 3,
        component: 0x0102,
        command: 0x0304,
        error: 0x0506,
        ty: FrameType::Notify,
        options: 9,
        seq: 0x0A0B,
    }
}

const REQUEST_BYTES: [u8; 15] = [
    0, 3, 1, 2, 3, 4, 5, 6, 0x20, 0x90, 0x0A, 0x0B, 7, 8, 9,
];

#[test]
fn frame_types_have_codes() {
    assert_eq!(FrameType::Request.value(), 0);
    assert_eq!(FrameType::Response.value(), 1);
    assert_eq!(FrameType::Notify.value(), 2);
    assert_eq!(FrameType::Error.value(), 3);
    assert_eq!(FrameType::from(0), FrameType::Request);
    assert_eq!(FrameType::from(1), FrameType::Response);
    assert_eq!(FrameType::from(2), FrameType::Notify);
    assert_eq!(FrameType::from(3), FrameType::Error);
    // Unknown types are requests
    assert_eq!(FrameType::from(4), FrameType::Request);
    assert_eq!(FrameType::from(255), FrameType::Request);
}

#[test]
fn frame_is_encoded() {
    let mut codec = FireCodec::default();
    let mut buffer = BytesMut::new();
    let frame = Frame {
        header: request(),
        contents: Bytes::from_static(&[7, 8, 9]),
    };
    codec.encode(frame, &mut buffer);
    assert_eq!(&buffer[..], &REQUEST_BYTES);
}

#[test]
fn frame_is_appended_to_what_is_there() {
    let mut codec = FireCodec::default();
    let mut buffer = BytesMut::from(&[0xEE_u8][..]);
    let frame = Frame {
        header: request(),
        contents: Bytes::from_static(&[7, 8, 9]),
    };
    assert!(codec.try_encode(frame, &mut buffer));
    assert_eq!(buffer[0], 0xEE);
    assert_eq!(&buffer[1..], &REQUEST_BYTES);
}

#[test]
fn long_lengths_and_options_are_cut_off() {
    let mut codec = FireCodec::default();
    let mut buffer = BytesMut::new();
    let header = FrameHeader {
        length: 0x1_0002,
        options: 0x1F,
        ..request()
    };
    let frame = Frame {
        header,
        contents: Bytes::new(),
    };
    codec.encode(frame, &mut buffer);
    assert_eq!(&buffer[..2], &[0, 2]);
    assert_eq!(buffer[9], 0xF0);
}

#[test]
fn frame_is_decoded() {
    let mut codec = FireCodec::default();
    let mut buffer = BytesMut::from(&REQUEST_BYTES[..]);
    buffer.extend_from_slice(&[1, 2]);
    let frame = codec.decode(&mut buffer).expect("frame");
    assert_eq!(frame.header, request());
    assert_eq!(&frame.contents[..], &[7, 8, 9]);
    // What follows the frame stays
    assert_eq!(&buffer[..], &[1, 2]);
    assert!(codec.decode(&mut buffer).is_none());
    assert_eq!(&buffer[..], &[1, 2]);
}

#[test]
fn frame_is_decoded_byte_by_byte() {
    let mut codec = FireCodec::default();
    let mut buffer = BytesMut::new();
    for (index, byte) in REQUEST_BYTES.iter().enumerate() {
        assert!(codec.decode(&mut buffer).is_none());
        buffer.extend_from_slice(&[*byte]);
        if index + 1 == MIN_HEADER_SIZE {
            // The header is taken off as soon as it is there
            assert!(codec.decode(&mut buffer).is_none());
            assert!(buffer.is_empty());
        }
    }
    let frame = codec.decode(&mut buffer).expect("frame");
    assert_eq!(frame.header, request());
    assert_eq!(&frame.contents[..], &[7, 8, 9]);
    assert!(buffer.is_empty());
}

#[test]
fn stream_of_frames_is_decoded_in_order() {
    let mut codec = FireCodec::default();
    let mut buffer = BytesMut::new();
    for value in 0..4u8 {
        let frame = Frame::response(&request(), vec![value; value as usize]);
        codec.encode(frame, &mut buffer);
    }
    for value in 0..4u8 {
        let frame = codec.decode(&mut buffer).expect("frame");
        assert_eq!(frame.header.length, value as usize);
        assert_eq!(&frame.contents[..], &vec![value; value as usize][..]);
    }
    assert!(codec.decode(&mut buffer).is_none());
}

#[test]
fn responses_answer_their_request() {
    let expected = FrameHeader {
        length: 2,
        component: 0x0102,
        command: 0x0304,
        error: 0,
        ty: FrameType::Response,
        options: 0,
        seq: 0x0A0B,
    };
    let frame = Frame::response(&request(), vec![4, 5]);
    assert_eq!(frame.header, expected);
    assert_eq!(&frame.contents[..], &[4, 5]);

    let frame = Frame::response_raw(&request(), Bytes::from_static(&[6, 7]));
    assert_eq!(frame.header, expected);
    assert_eq!(&frame.contents[..], &[6, 7]);

    let frame = Frame::response_empty(&request());
    assert_eq!(
        frame.header,
        FrameHeader {
            length: 0,
            ..expected
        }
    );
    assert!(frame.contents.is_empty());
}

#[test]
fn decoded_frame_is_encoded_as_it_came() {
    let mut codec = FireCodec::default();
    let mut buffer = BytesMut::from(&REQUEST_BYTES[..]);
    let frame = codec.decode(&mut buffer).expect("frame");
    codec.encode(frame, &mut buffer);
    assert_eq!(&buffer[..], &REQUEST_BYTES);
}
