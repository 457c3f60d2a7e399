use pocket_relay_client_shared::servers::udp_tunnel::handshake::{
    initiate_packet, initiated_tunnel, read_handshake, HandshakeAttempts, HandshakeStep,
    UdpTunnelError,
};
use pocket_relay_client_shared::servers::udp_tunnel::packet::{MessageError, UdpMessage, UdpPacket};
use pocket_relay_client_shared::servers::udp_tunnel::{
    Tunnel, TunnelEffect, TunnelEvent, TunnelQuestion,
};
use pocket_relay_client_shared::servers::Progress;

fn handshake(buffer: &[u8]) -> Result<u32, UdpTunnelError<()>> {
    read_handshake(buffer)
}

#[test]
fn initiate_packet_carries_the_token() {
    assert_eq!(
        initiate_packet("abc"),
        vec![1, 255, 255, 255, 255, 0, 0, 3, 0x61, 0x62, 0x63]
    );
    // Two bytes for the one character
    assert_eq!(
        initiate_packet("\u{E9}"),
        vec![1, 255, 255, 255, 255, 0, 0, 2, 0xC3, 0xA9]
    );
    assert_eq!(initiate_packet(""), vec![1, 255, 255, 255, 255, 0, 0, 0]);
}

#[test]
fn handshake_is_read() {
    let tunnel_id = handshake(&[1, 0, 0, 0, 9, 1, 0, 1, 2, 3]);
    assert!(matches!(tunnel_id, Ok(0x0001_0203)));
    // Neither the version nor what follows is looked at
    let tunnel_id = handshake(&[7, 0, 0, 0, 9, 1, 0, 1, 2, 3, 44]);
    assert!(matches!(tunnel_id, Ok(0x0001_0203)));
}

#[test]
fn handshake_with_another_packet_is_unexpected() {
    for buffer in [
        &[1, 0, 0, 0, 9, 3][..],
        &[1, 0, 0, 0, 9, 2, 0, 0, 1, 5][..],
        &[1, 0, 0, 0, 9, 0, 0, 1, 0x61][..],
    ] {
        assert!(matches!(
            handshake(buffer),
            Err(UdpTunnelError::UnexpectedPacket)
        ));
    }
}

#[test]
fn malformed_handshake_is_refused() {
    let cases: [(&[u8], MessageError); 10] = [
        (&[], MessageError::Incomplete(1)),
        (&[1], MessageError::Incomplete(4)),
        (&[1, 0, 0, 0], MessageError::Incomplete(4)),
        (&[1, 0, 0, 0, 9], MessageError::Incomplete(1)),
        (&[1, 0, 0, 0, 9, 4], MessageError::UnknownMessageType),
        (&[1, 0, 0, 0, 9, 1, 0, 0, 0], MessageError::Incomplete(4)),
        (&[1, 0, 0, 0, 9, 0, 0], MessageError::Incomplete(2)),
        (&[1, 0, 0, 0, 9, 0, 0, 3, 0x61], MessageError::Incomplete(1)),
        (&[1, 0, 0, 0, 9, 2], MessageError::Incomplete(1)),
        (&[1, 0, 0, 0, 9, 2, 0, 0, 2, 8], MessageError::Incomplete(1)),
    ];
    for (buffer, expected) in cases {
        match handshake(buffer) {
            Err(UdpTunnelError::MalformedPacket(error)) => assert_eq!(error, expected),
            _ => panic!("the packet is malformed"),
        }
    }
}

#[test]
fn decoded_answer_tells_the_tunnel() {
    let packet = UdpPacket {
        version: 1,
        tunnel_id: 0,
        message: UdpMessage::Initiated { tunnel_id: 77 },
    };
    let tunnel_id: Result<u32, UdpTunnelError<()>> = initiated_tunnel(Ok(packet));
    assert!(matches!(tunnel_id, Ok(77)));
    let tunnel_id: Result<u32, UdpTunnelError<()>> =
        initiated_tunnel(Err(MessageError::UnknownMessageType));
    assert!(matches!(
        tunnel_id,
        Err(UdpTunnelError::MalformedPacket(MessageError::UnknownMessageType))
    ));
}

#[test]
fn handshake_is_given_up_after_five_attempts() {
    let mut attempts = HandshakeAttempts::new();
    for delay in [5, 10, 20, 40] {
        let step = attempts.record::<()>(Some(Err(UdpTunnelError::UnexpectedPacket)));
        assert!(matches!(step, HandshakeStep::Retry(seconds) if seconds == delay));
    }
    let step = attempts.record::<()>(None);
    assert!(matches!(
        step,
        HandshakeStep::GiveUp(80, UdpTunnelError::HandshakeTimeout)
    ));
}

#[test]
fn handshake_reports_the_last_error() {
    let mut attempts = HandshakeAttempts::new();
    for _ in 0..4 {
        assert!(matches!(attempts.record::<u8>(None), HandshakeStep::Retry(_)));
    }
    let step = attempts.record(Some(Err(UdpTunnelError::GenericIo(4u8))));
    assert!(matches!(
        step,
        HandshakeStep::GiveUp(80, UdpTunnelError::GenericIo(4))
    ));
}

#[test]
fn fifth_attempt_can_still_succeed() {
    let mut attempts = HandshakeAttempts::new();
    for _ in 0..4 {
        assert!(matches!(attempts.record::<()>(None), HandshakeStep::Retry(_)));
    }
    assert!(matches!(
        attempts.record::<()>(Some(Ok(9))),
        HandshakeStep::Done(9)
    ));
}

#[test]
fn handshake_is_done_with_the_first_success() {
    let mut attempts = HandshakeAttempts::new();
    assert!(matches!(attempts.record::<()>(None), HandshakeStep::Retry(5)));
    assert!(matches!(
        attempts.record::<()>(Some(Ok(12))),
        HandshakeStep::Done(12)
    ));
}

#[test]
fn messages_that_fit_a_packet() {
    let forward = |length: usize| UdpMessage::Forward {
        index: 0,
        message: vec![0; length],
    };
    assert!(forward(65534).fits());
    assert!(!forward(65535).fits());
    let initiate = |length: usize| UdpMessage::Initiate {
        association_token: "a".repeat(length),
    };
    assert!(initiate(65534).fits());
    assert!(!initiate(65535).fits());
    assert!(UdpMessage::KeepAlive.fits());
    assert!(UdpMessage::Initiated { tunnel_id: 1 }.fits());
}

fn forward(index: u8, message: &[u8]) -> UdpMessage {
    UdpMessage::Forward {
        index,
        message: message.to_vec(),
    }
}

fn quiet(tunnel: &mut Tunnel, event: TunnelEvent<UdpMessage, &[u8]>) -> Progress {
    let (effect, progress) = tunnel.poll(event);
    assert!(matches!(effect, TunnelEffect::Nothing));
    progress
}

fn sends(tunnel: &mut Tunnel, expected: &[u8]) {
    assert_eq!(tunnel.question(), TunnelQuestion::SendReady);
    assert!(tunnel.sendable());
    match tunnel.poll(TunnelEvent::SendReady(true)) {
        (TunnelEffect::Send(bytes), Progress::Continue) => assert_eq!(bytes, expected),
        _ => panic!("nothing was sent"),
    }
    assert_eq!(tunnel.question(), TunnelQuestion::Send);
}

/// Brings a tunnel to where a packet is there to read
fn readable(tunnel: &mut Tunnel) {
    assert_eq!(quiet(tunnel, TunnelEvent::Pending), Progress::Continue);
    assert_eq!(tunnel.question(), TunnelQuestion::RecvReady);
    assert_eq!(quiet(tunnel, TunnelEvent::RecvReady(true)), Progress::Continue);
    assert_eq!(tunnel.question(), TunnelQuestion::Recv);
}

#[test]
fn udp_tunnel_sends_what_the_pool_gives() {
    let mut tunnel = Tunnel::new(0x0102_0304);
    assert_eq!(tunnel.question(), TunnelQuestion::Receive);
    assert!(!tunnel.sendable());
    let progress = quiet(&mut tunnel, TunnelEvent::Received(Some(forward(2, &[7, 8]))));
    assert_eq!(progress, Progress::Continue);
    sends(&mut tunnel, &[1, 1, 2, 3, 4, 2, 2, 0, 2, 7, 8]);
    assert_eq!(quiet(&mut tunnel, TunnelEvent::Sent), Progress::Continue);
    assert_eq!(tunnel.question(), TunnelQuestion::Receive);
}

#[test]
fn udp_tunnel_delivers_to_the_pool() {
    let mut tunnel = Tunnel::new(1);
    readable(&mut tunnel);
    for index in 0..4u8 {
        let bytes = [1, 0, 0, 0, 1, 2, index, 0, 1, 9];
        match tunnel.poll(TunnelEvent::Datagram(Some(&bytes))) {
            (TunnelEffect::Deliver(place, message), Progress::Continue) => {
                assert_eq!(place, index as usize);
                assert_eq!(message, vec![9]);
            }
            _ => panic!("nothing was delivered"),
        }
        quiet(&mut tunnel, TunnelEvent::RecvReady(true));
    }
    // There is no socket for this one
    let bytes = [1, 0, 0, 0, 1, 2, 4, 0, 1, 9];
    let progress = quiet(&mut tunnel, TunnelEvent::Datagram(Some(&bytes)));
    assert_eq!(progress, Progress::Continue);
    // Other messages are ignored
    quiet(&mut tunnel, TunnelEvent::RecvReady(true));
    let bytes = [1, 0, 0, 0, 1, 1, 0, 0, 0, 5];
    let progress = quiet(&mut tunnel, TunnelEvent::Datagram(Some(&bytes)));
    assert_eq!(progress, Progress::Continue);
    assert_eq!(tunnel.question(), TunnelQuestion::RecvReady);
}

#[test]
fn udp_tunnel_answers_keep_alive() {
    let mut tunnel = Tunnel::new(5);
    readable(&mut tunnel);
    quiet(&mut tunnel, TunnelEvent::Datagram(Some(&[1, 0, 0, 0, 5, 3])));
    sends(&mut tunnel, &[1, 0, 0, 0, 5, 3]);
    quiet(&mut tunnel, TunnelEvent::Sent);
    // Reading goes on
    assert_eq!(tunnel.question(), TunnelQuestion::RecvReady);
    assert_eq!(quiet(&mut tunnel, TunnelEvent::Pending), Progress::Pending);
    assert_eq!(tunnel.question(), TunnelQuestion::Receive);
}

#[test]
fn udp_keep_alive_is_answered_behind_a_waiting_message() {
    let mut tunnel = Tunnel::new(5);
    quiet(&mut tunnel, TunnelEvent::Received(Some(forward(0, &[1]))));
    readable(&mut tunnel);
    // Two keep-alive messages get one reply while none of them is answered
    quiet(&mut tunnel, TunnelEvent::Datagram(Some(&[1, 0, 0, 0, 5, 3])));
    quiet(&mut tunnel, TunnelEvent::RecvReady(true));
    quiet(&mut tunnel, TunnelEvent::Datagram(Some(&[1, 0, 0, 0, 5, 3])));
    assert_eq!(quiet(&mut tunnel, TunnelEvent::Pending), Progress::Pending);
    sends(&mut tunnel, &[1, 0, 0, 0, 5, 2, 0, 0, 1, 1]);
    quiet(&mut tunnel, TunnelEvent::Sent);
    sends(&mut tunnel, &[1, 0, 0, 0, 5, 3]);
    quiet(&mut tunnel, TunnelEvent::Sent);
    assert_eq!(tunnel.question(), TunnelQuestion::Receive);
}

#[test]
fn udp_tunnel_keeps_a_message_that_was_not_sent_at_once() {
    let mut tunnel = Tunnel::new(5);
    quiet(&mut tunnel, TunnelEvent::Received(Some(forward(0, &[1]))));
    for _ in 0..3 {
        sends(&mut tunnel, &[1, 0, 0, 0, 5, 2, 0, 0, 1, 1]);
        assert_eq!(quiet(&mut tunnel, TunnelEvent::Pending), Progress::Continue);
        assert_eq!(tunnel.question(), TunnelQuestion::RecvReady);
        assert_eq!(quiet(&mut tunnel, TunnelEvent::Pending), Progress::Pending);
    }
    sends(&mut tunnel, &[1, 0, 0, 0, 5, 2, 0, 0, 1, 1]);
    quiet(&mut tunnel, TunnelEvent::Sent);
    assert_eq!(tunnel.question(), TunnelQuestion::Receive);
}

#[test]
fn udp_reply_that_was_not_sent_at_once_is_kept() {
    let mut tunnel = Tunnel::new(5);
    readable(&mut tunnel);
    quiet(&mut tunnel, TunnelEvent::Datagram(Some(&[1, 0, 0, 0, 5, 3])));
    sends(&mut tunnel, &[1, 0, 0, 0, 5, 3]);
    assert_eq!(quiet(&mut tunnel, TunnelEvent::Pending), Progress::Continue);
    assert_eq!(quiet(&mut tunnel, TunnelEvent::Pending), Progress::Pending);
    sends(&mut tunnel, &[1, 0, 0, 0, 5, 3]);
}

#[test]
fn udp_message_that_fits_no_packet_is_not_sendable() {
    let mut tunnel = Tunnel::new(5);
    quiet(&mut tunnel, TunnelEvent::Received(Some(forward(0, &[0; 65535]))));
    assert_eq!(tunnel.question(), TunnelQuestion::SendReady);
    assert!(!tunnel.sendable());
}

#[test]
fn udp_tunnel_stops() {
    let mut tunnel = Tunnel::new(1);
    assert_eq!(quiet(&mut tunnel, TunnelEvent::Received(None)), Progress::Stopped);

    let mut tunnel = Tunnel::new(1);
    quiet(&mut tunnel, TunnelEvent::Received(Some(forward(0, &[1]))));
    assert_eq!(quiet(&mut tunnel, TunnelEvent::SendReady(false)), Progress::Stopped);

    let mut tunnel = Tunnel::new(1);
    quiet(&mut tunnel, TunnelEvent::Pending);
    assert_eq!(quiet(&mut tunnel, TunnelEvent::RecvReady(false)), Progress::Stopped);

    let mut tunnel = Tunnel::new(1);
    readable(&mut tunnel);
    assert_eq!(quiet(&mut tunnel, TunnelEvent::Datagram(None)), Progress::Stopped);

    // A malformed packet
    let mut tunnel = Tunnel::new(1);
    readable(&mut tunnel);
    let progress = quiet(&mut tunnel, TunnelEvent::Datagram(Some(&[1, 0, 0])));
    assert_eq!(progress, Progress::Stopped);
}
