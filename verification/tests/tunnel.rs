use bytes::{Bytes, BytesMut};
use pocket_relay_client_shared::servers::tunnel::codec::{TunnelCodec, TunnelMessage};
use pocket_relay_client_shared::servers::tunnel::{
    Tunnel, TunnelEffect, TunnelEvent, TunnelQuestion, KEEP_ALIVE_INDEX,
};
use pocket_relay_client_shared::servers::Progress;

fn message(index: u8, bytes: &[u8]) -> TunnelMessage {
    TunnelMessage {
        index,
        message: Bytes::copy_from_slice(bytes),
    }
}

#[test]
fn tunnel_message_is_encoded() {
    let mut codec = TunnelCodec::default();
    let mut buffer = BytesMut::new();
    codec.encode(message(2, &[5, 6, 7]), &mut buffer);
    assert_eq!(&buffer[..], &[2, 0, 3, 5, 6, 7]);
    assert!(codec.try_encode(message(255, &[]), &mut buffer));
    assert_eq!(&buffer[..], &[2, 0, 3, 5, 6, 7, 255, 0, 0]);
}

#[test]
fn tunnel_message_is_decoded_byte_by_byte() {
    let mut codec = TunnelCodec::default();
    let mut buffer = BytesMut::new();
    for byte in [2, 0, 3, 5, 6, 7] {
        assert!(codec.decode(&mut buffer).is_none());
        buffer.extend_from_slice(&[byte]);
    }
    let message = codec.decode(&mut buffer).expect("message");
    assert_eq!(message.index, 2);
    assert_eq!(&message.message[..], &[5, 6, 7]);
    assert!(buffer.is_empty());
}

#[test]
fn keep_alive_without_payload_is_decoded() {
    let mut codec = TunnelCodec::default();
    let mut buffer = BytesMut::from(&[255_u8, 0, 0][..]);
    let message = codec.decode(&mut buffer).expect("message");
    assert_eq!(message.index, KEEP_ALIVE_INDEX);
    assert!(message.message.is_empty());
}

#[test]
fn stream_of_tunnel_messages_is_decoded_in_order() {
    let mut codec = TunnelCodec::default();
    let mut buffer = BytesMut::new();
    for index in 0..4u8 {
        codec.encode(message(index, &vec![index; index as usize]), &mut buffer);
    }
    let long = vec![3u8; 65535];
    codec.encode(message(9, &long), &mut buffer);
    for index in 0..4u8 {
        let message = codec.decode(&mut buffer).expect("message");
        assert_eq!(message.index, index);
        assert_eq!(message.message.len(), index as usize);
    }
    let last = codec.decode(&mut buffer).expect("message");
    assert_eq!(last.index, 9);
    assert_eq!(&last.message[..], &long[..]);
    assert!(codec.decode(&mut buffer).is_none());
}

fn step(tunnel: &mut Tunnel, event: TunnelEvent<TunnelMessage>) -> Progress {
    let (effect, progress) = tunnel.poll(event);
    assert!(matches!(effect, TunnelEffect::Nothing));
    progress
}

#[test]
fn tunnel_sends_what_the_pool_gives() {
    let mut tunnel = Tunnel::new();
    assert_eq!(tunnel.question(), TunnelQuestion::Receive);
    let progress = step(&mut tunnel, TunnelEvent::Received(Some(message(1, &[4, 2]))));
    assert_eq!(progress, Progress::Continue);

    assert_eq!(tunnel.question(), TunnelQuestion::Ready);
    let (effect, progress) = tunnel.poll(TunnelEvent::Ready(true));
    assert_eq!(progress, Progress::Continue);
    match effect {
        TunnelEffect::Send(message) => {
            assert_eq!(message.index, 1);
            assert_eq!(&message.message[..], &[4, 2]);
        }
        _ => panic!("nothing was sent"),
    }

    assert_eq!(tunnel.question(), TunnelQuestion::Flush);
    assert_eq!(step(&mut tunnel, TunnelEvent::Flushed(true)), Progress::Continue);
    assert_eq!(tunnel.question(), TunnelQuestion::Receive);
}

#[test]
fn tunnel_waits_and_starts_over_with_writing() {
    let mut tunnel = Tunnel::new();
    step(&mut tunnel, TunnelEvent::Received(Some(message(1, &[4]))));
    assert_eq!(step(&mut tunnel, TunnelEvent::Pending), Progress::Continue);
    assert_eq!(tunnel.question(), TunnelQuestion::Next);
    assert_eq!(step(&mut tunnel, TunnelEvent::Pending), Progress::Pending);
    // The message still waits for the connection
    assert_eq!(tunnel.question(), TunnelQuestion::Ready);
    let (effect, _) = tunnel.poll(TunnelEvent::Ready(true));
    assert!(matches!(effect, TunnelEffect::Send(_)));
}

#[test]
fn tunnel_delivers_to_the_pool() {
    let mut tunnel = Tunnel::new();
    step(&mut tunnel, TunnelEvent::Pending);
    for index in 0..4u8 {
        let (effect, progress) = tunnel.poll(TunnelEvent::Next(Some(message(index, &[9, index]))));
        assert_eq!(progress, Progress::Continue);
        match effect {
            TunnelEffect::Deliver(place, message) => {
                assert_eq!(place, index as usize);
                assert_eq!(message.index, index);
                assert_eq!(&message.message[..], &[9, index]);
            }
            _ => panic!("nothing was delivered"),
        }
    }
    // There is no socket for this one
    let progress = step(&mut tunnel, TunnelEvent::Next(Some(message(4, &[1]))));
    assert_eq!(progress, Progress::Continue);
    assert_eq!(tunnel.question(), TunnelQuestion::Next);
}

#[test]
fn tunnel_answers_keep_alive() {
    let mut tunnel = Tunnel::new();
    step(&mut tunnel, TunnelEvent::Pending);
    step(&mut tunnel, TunnelEvent::Next(Some(message(255, &[]))));
    assert_eq!(tunnel.question(), TunnelQuestion::Ready);
    let (effect, progress) = tunnel.poll(TunnelEvent::Ready(true));
    assert_eq!(progress, Progress::Continue);
    match effect {
        TunnelEffect::Send(message) => {
            assert_eq!(message.index, 255);
            assert!(message.message.is_empty());
        }
        _ => panic!("nothing was sent"),
    }
    // Reading goes on, and the reply is flushed later
    assert_eq!(tunnel.question(), TunnelQuestion::Next);
    step(&mut tunnel, TunnelEvent::Pending);
    assert_eq!(tunnel.question(), TunnelQuestion::Flush);
}

#[test]
fn tunnel_does_not_answer_keep_alive_while_writing() {
    let mut tunnel = Tunnel::new();
    step(&mut tunnel, TunnelEvent::Received(Some(message(1, &[4]))));
    step(&mut tunnel, TunnelEvent::Pending);
    step(&mut tunnel, TunnelEvent::Next(Some(message(255, &[]))));
    assert_eq!(tunnel.question(), TunnelQuestion::Next);
    step(&mut tunnel, TunnelEvent::Pending);
    match tunnel.poll(TunnelEvent::Ready(true)).0 {
        TunnelEffect::Send(message) => assert_eq!(message.index, 1),
        _ => panic!("nothing was sent"),
    }
}

#[test]
fn tunnel_stops() {
    let mut tunnel = Tunnel::new();
    assert_eq!(step(&mut tunnel, TunnelEvent::Received(None)), Progress::Stopped);

    let mut tunnel = Tunnel::new();
    step(&mut tunnel, TunnelEvent::Received(Some(message(1, &[4]))));
    assert_eq!(step(&mut tunnel, TunnelEvent::Ready(false)), Progress::Stopped);

    let mut tunnel = Tunnel::new();
    step(&mut tunnel, TunnelEvent::Received(Some(message(1, &[4]))));
    let _ = tunnel.poll(TunnelEvent::Ready(true));
    assert_eq!(step(&mut tunnel, TunnelEvent::Flushed(false)), Progress::Stopped);

    let mut tunnel = Tunnel::new();
    step(&mut tunnel, TunnelEvent::Pending);
    assert_eq!(step(&mut tunnel, TunnelEvent::Next(None)), Progress::Stopped);
}

#[test]
fn decoded_tunnel_message_is_encoded_as_it_came() {
    let bytes = [7u8, 0, 2, 1, 2, 9];
    let mut codec = TunnelCodec::default();
    let mut buffer = BytesMut::from(&bytes[..]);
    let message = codec.decode(&mut buffer).expect("message");
    let mut encoded = BytesMut::new();
    codec.encode(message, &mut encoded);
    encoded.extend_from_slice(&buffer);
    assert_eq!(&encoded[..], &bytes);
}

#[test]
fn cut_off_length_of_a_long_tunnel_message() {
    let mut codec = TunnelCodec::default();
    let mut buffer = BytesMut::new();
    codec.encode(message(1, &vec![0; 0x1_0002]), &mut buffer);
    assert_eq!(&buffer[..3], &[1, 0, 2]);
    assert_eq!(buffer.len(), 3 + 0x1_0002);
}
