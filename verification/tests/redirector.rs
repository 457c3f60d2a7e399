use bytes::BytesMut;
use pocket_relay_client_shared::fire::{FireCodec, FrameHeader, FrameType};
use pocket_relay_client_shared::servers::redirector::{local_instance_response, redirect};

/// The address 127.0.0.1 and the port 42128
const LOCAL_INSTANCE: [u8; 36] = [
    0x86, 0x49, 0x32, 0x06, 0x00, // ADDR, union
    0xDA, 0x1B, 0x35, 0x03, // VALU, group
    0xA7, 0x00, 0x00, 0x00, 0x81, 0x80, 0x80, 0xF0, 0x0F, // IP
    0xC2, 0xFC, 0xB4, 0x00, 0x90, 0x92, 0x05, // PORT
    0x00, // End of the group
    0xCE, 0x58, 0xF5, 0x00, 0x00, // SECU
    0xE2, 0x4B, 0xB3, 0x00, 0x00, // XDNS
];

fn request(component: u16, command: u16) -> FrameHeader {
    FrameHeader {
        length: 0,
        component,
        command,
        error: 0,
        ty: FrameType::Request,
        options: 3,
        seq: 21,
    }
}

#[test]
fn local_instance_is_written() {
    assert_eq!(local_instance_response(), LOCAL_INSTANCE);
}

#[test]
fn instance_request_is_redirected() {
    let (frame, complete) = redirect(&request(5, 1));
    assert!(complete);
    assert_eq!(
        frame.header,
        FrameHeader {
            length: 36,
            component: 5,
            command: 1,
            error: 0,
            ty: FrameType::Response,
            options: 0,
            seq: 21,
        }
    );
    assert_eq!(&frame.contents[..], &LOCAL_INSTANCE);
}

#[test]
fn unexpected_requests_get_empty_responses() {
    for (component, command) in [(5, 2), (4, 1), (1, 5), (0, 0)] {
        let (frame, complete) = redirect(&request(component, command));
        assert!(!complete);
        assert!(frame.contents.is_empty());
        assert_eq!(frame.header.length, 0);
        assert_eq!(frame.header.component, component);
        assert_eq!(frame.header.command, command);
        assert_eq!(frame.header.seq, 21);
        assert_eq!(frame.header.ty, FrameType::Response);
    }
}

#[test]
fn redirect_reaches_the_client() {
    let (frame, _) = redirect(&request(5, 1));
    let mut codec = FireCodec::default();
    let mut buffer = BytesMut::new();
    codec.encode(frame, &mut buffer);
    let frame = codec.decode(&mut buffer).expect("frame");
    assert_eq!(frame.header.seq, 21);
    assert_eq!(&frame.contents[..], &LOCAL_INSTANCE);
}

#[test]
fn connection_ends_with_the_first_instance_request() {
    let requests = [request(4, 1), request(5, 7), request(5, 1), request(5, 1)];
    let mut responses = Vec::new();
    for header in &requests {
        let (frame, complete) = redirect(header);
        responses.push(frame.contents.len());
        if complete {
            break;
        }
    }
    assert_eq!(responses, [0, 0, 36]);
}
