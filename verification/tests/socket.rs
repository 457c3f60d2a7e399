use bytes::Bytes;
use pocket_relay_client_shared::servers::socket::{
    Socket, SocketEffect, SocketEvent, SocketQuestion,
};
use pocket_relay_client_shared::servers::{pool_port, Progress};

#[test]
fn socket_sends_a_message_in_parts() {
    let mut socket: Socket<Bytes> = Socket::new(2);
    assert_eq!(socket.question(), SocketQuestion::Receive);
    let (effect, progress) = socket.poll(SocketEvent::Received(Some(Bytes::from_static(&[1, 2, 3]))));
    assert!(matches!(effect, SocketEffect::Nothing));
    assert_eq!(progress, Progress::Continue);

    assert_eq!(socket.question(), SocketQuestion::Send);
    assert_eq!(&socket.unsent().expect("unsent")[..], &[1, 2, 3]);
    socket.poll(SocketEvent::Sent(Some(2)));
    assert_eq!(socket.question(), SocketQuestion::Send);
    assert_eq!(&socket.unsent().expect("unsent")[..], &[3]);
    socket.poll(SocketEvent::Sent(Some(1)));
    assert_eq!(socket.question(), SocketQuestion::Receive);
    assert!(socket.unsent().is_none());
}

#[test]
fn socket_of_the_udp_tunnel_sends_a_message_in_parts() {
    let mut socket: Socket<Vec<u8>> = Socket::new(0);
    socket.poll(SocketEvent::Received(Some(vec![5, 6, 7, 8])));
    socket.poll(SocketEvent::Sent(Some(1)));
    assert_eq!(socket.unsent(), Some(&vec![6, 7, 8]));
    socket.poll(SocketEvent::Sent(Some(3)));
    assert_eq!(socket.question(), SocketQuestion::Receive);
}

#[test]
fn socket_forwards_what_it_reads() {
    let mut socket: Socket<Vec<u8>> = Socket::new(3);
    let (_, progress) = socket.poll(SocketEvent::Pending);
    assert_eq!(progress, Progress::Continue);
    assert_eq!(socket.question(), SocketQuestion::Read);
    let (effect, progress) = socket.poll(SocketEvent::Read(Some(&[9, 8])));
    assert_eq!(progress, Progress::Continue);
    match effect {
        SocketEffect::Forward(index, message) => {
            assert_eq!(index, 3);
            assert_eq!(message, vec![9, 8]);
        }
        SocketEffect::Nothing => panic!("nothing was forwarded"),
    }
    assert_eq!(socket.question(), SocketQuestion::Forward);
    socket.poll(SocketEvent::Forwarded(true));
    assert_eq!(socket.question(), SocketQuestion::Read);
    let (_, progress) = socket.poll(SocketEvent::Pending);
    assert_eq!(progress, Progress::Pending);
    assert_eq!(socket.question(), SocketQuestion::Receive);
}

#[test]
fn socket_copies_what_it_reads_into_bytes() {
    let mut socket: Socket<Bytes> = Socket::new(1);
    socket.poll(SocketEvent::Pending);
    match socket.poll(SocketEvent::Read(Some(&[1, 2, 3]))).0 {
        SocketEffect::Forward(1, message) => assert_eq!(&message[..], &[1, 2, 3]),
        _ => panic!("nothing was forwarded"),
    }
}

#[test]
fn socket_stops() {
    let mut socket: Socket<Vec<u8>> = Socket::new(0);
    assert_eq!(socket.poll(SocketEvent::Received(None)).1, Progress::Stopped);

    let mut socket: Socket<Vec<u8>> = Socket::new(0);
    socket.poll(SocketEvent::Received(Some(vec![1])));
    assert_eq!(socket.poll(SocketEvent::Sent(None)).1, Progress::Stopped);

    let mut socket: Socket<Vec<u8>> = Socket::new(0);
    socket.poll(SocketEvent::Pending);
    assert_eq!(socket.poll(SocketEvent::Read(None)).1, Progress::Stopped);

    let mut socket: Socket<Vec<u8>> = Socket::new(0);
    socket.poll(SocketEvent::Pending);
    socket.poll(SocketEvent::Read(Some(&[1])));
    assert_eq!(socket.poll(SocketEvent::Forwarded(false)).1, Progress::Stopped);
}

#[test]
fn only_the_host_socket_has_a_fixed_port() {
    assert_eq!(pool_port(0), 42132);
    assert_eq!(pool_port(1), 0);
    assert_eq!(pool_port(2), 0);
    assert_eq!(pool_port(3), 0);
    assert_eq!(pool_port(255), 0);
}
