//! UDP Tunneling server
//!
//! Provides a local tunnel that connects clients by tunneling through the Pocket Relay
//! server. This allows clients with more strict NATs to host games without common issues
//! faced when trying to connect. This is the faster UDP implementation
//!
//! The tunnel is a state machine: it names the one thing it has to know next,
//! is told the answer, and says what is to be done.

use vstd::prelude::*;

use self::packet::{
    deserialize_message, packet_bytes, packet_in, serialize_message, UdpMessage, UdpMessageView,
};
use super::tunnel::option_view;
use super::{Progress, SOCKET_POOL_SIZE};

pub mod handshake;
pub mod laws;
pub mod packet;

verus! {

/// Holds the state for the current writing progress for a [`Tunnel`]
pub enum TunnelWriteState<M> {
    /// Waiting for a message to come from the sockets of the pool
    Recv,
    /// Waiting for the socket to be writable, then writing the
    /// contained message
    Write(M),
    /// Waiting for the packet with the contained message to be sent
    Send(M),
    /// The tunnel has stopped and should not continue
    Stop,
}

/// What a tunnel has to know next
#[derive(Debug, Clone, Copy, PartialEq, Eq, Structural)]
pub enum TunnelQuestion {
    /// Whether a socket of the pool has a message to send
    Receive,
    /// Whether the socket is writable
    SendReady,
    /// Whether the packet was sent
    Send,
    /// Whether the socket is readable
    RecvReady,
    /// The packet that the socket received
    Recv,
}

/// The answer to what a tunnel has to know
pub enum TunnelEvent<M, B> {
    /// The answer is not known yet
    Pending,
    /// A message from a socket of the pool, or none when all of them are closed
    Received(Option<M>),
    /// Whether the socket is writable, or has failed
    SendReady(bool),
    /// The packet was sent
    Sent,
    /// Whether the socket is readable, or has failed
    RecvReady(bool),
    /// The bytes of a packet, or none when the socket has failed
    Datagram(Option<B>),
}

/// What has to be done for a tunnel
pub enum TunnelEffect<B> {
    /// Nothing
    Nothing,
    /// Send the packet to the server
    Send(B),
    /// Hand the message to the socket with the index within the pool
    Deliver(usize, B),
}

/// The part of a tunnel that is being polled
#[derive(Debug, Clone, Copy, PartialEq, Eq, Structural)]
pub enum TunnelHalf {
    /// Messages from the pool to the server
    Write,
    /// Packets from the server to the pool
    Read,
    /// A packet that is there to read
    Datagram,
    /// The answer to a keep-alive message that was just read
    Reply,
    /// None: the tunnel has stopped
    Stopped,
}

/// Represents a tunnel and its pool of connections that it can
/// send data to and receive data from
pub struct Tunnel {
    /// Tunnel ID
    tunnel_id: u32,
    /// Current state of writing messages to the server
    write_state: TunnelWriteState<UdpMessage>,
    /// Whether a keep-alive message is to be answered once the message that is
    /// being written was sent
    reply_due: bool,
    /// The part that is being polled
    half: TunnelHalf,
}

/// The state of a tunnel, with its messages as plain values
pub struct TunnelState {
    /// Tunnel ID
    pub tunnel_id: u32,
    /// Current state of writing messages to the server
    pub write_state: TunnelWriteState<UdpMessageView>,
    /// Whether a keep-alive message is to be answered once the message that is
    /// being written was sent
    pub reply_due: bool,
    /// The part that is being polled
    pub half: TunnelHalf,
}

impl<M: View> View for TunnelWriteState<M> {
    type V = TunnelWriteState<M::V>;

    open spec fn view(&self) -> TunnelWriteState<M::V> {
        match *self {
            TunnelWriteState::Recv => TunnelWriteState::Recv,
            TunnelWriteState::Write(message) => TunnelWriteState::Write(message@),
            TunnelWriteState::Send(message) => TunnelWriteState::Send(message@),
            TunnelWriteState::Stop => TunnelWriteState::Stop,
        }
    }
}

impl<M: View, B: View> View for TunnelEvent<M, B> {
    type V = TunnelEvent<M::V, B::V>;

    open spec fn view(&self) -> TunnelEvent<M::V, B::V> {
        match *self {
            TunnelEvent::Pending => TunnelEvent::Pending,
            TunnelEvent::Received(message) => TunnelEvent::Received(option_view(message)),
            TunnelEvent::SendReady(ok) => TunnelEvent::SendReady(ok),
            TunnelEvent::Sent => TunnelEvent::Sent,
            TunnelEvent::RecvReady(ok) => TunnelEvent::RecvReady(ok),
            TunnelEvent::Datagram(bytes) => TunnelEvent::Datagram(option_view(bytes)),
        }
    }
}

impl<B: View> View for TunnelEffect<B> {
    type V = TunnelEffect<B::V>;

    open spec fn view(&self) -> TunnelEffect<B::V> {
        match *self {
            TunnelEffect::Nothing => TunnelEffect::Nothing,
            TunnelEffect::Send(bytes) => TunnelEffect::Send(bytes@),
            TunnelEffect::Deliver(index, bytes) => TunnelEffect::Deliver(index, bytes@),
        }
    }
}

impl View for Tunnel {
    type V = TunnelState;

    closed spec fn view(&self) -> TunnelState {
        TunnelState {
            tunnel_id: self.tunnel_id,
            write_state: self.write_state@,
            reply_due: self.reply_due,
            half: self.half,
        }
    }
}

/// One poll of the writing part of a tunnel
pub struct WritePoll<M, B> {
    /// The state after the poll
    pub state: TunnelWriteState<M>,
    /// Whether the answer was known
    pub ready: bool,
    /// What has to be done
    pub effect: TunnelEffect<B>,
}

impl<M> TunnelWriteState<M> {
    /// What the writing part of a tunnel has to know next
    pub open spec fn question(self) -> TunnelQuestion {
        match self {
            TunnelWriteState::Write(_) => TunnelQuestion::SendReady,
            TunnelWriteState::Send(_) => TunnelQuestion::Send,
            _ => TunnelQuestion::Receive,
        }
    }
}

impl TunnelWriteState<UdpMessageView> {
    /// Whether a message waits for the socket, and a packet can carry it
    pub open spec fn sendable(self) -> bool {
        self matches TunnelWriteState::Write(message) && message.fits()
    }

    /// Whether an event is what the writing part of a tunnel has to know. The
    /// message has to fit a packet once the socket is writable.
    pub open spec fn takes(self, event: TunnelEvent<UdpMessageView, Seq<u8>>) -> bool {
        match event {
            TunnelEvent::Pending => true,
            TunnelEvent::Received(_) => self.question() == TunnelQuestion::Receive,
            TunnelEvent::SendReady(ok) => {
                &&& self.question() == TunnelQuestion::SendReady
                &&& ok ==> self.sendable()
            },
            TunnelEvent::Sent => self.question() == TunnelQuestion::Send,
            _ => false,
        }
    }
}

/// What the writing part of a tunnel makes of an answer: the packet with a
/// received message is sent once the socket is writable, then the next message
/// is received. A message that could not be sent after all waits for the socket
/// again. It stops when the pool is closed or the socket fails.
pub open spec fn write_poll(
    tunnel_id: u32,
    state: TunnelWriteState<UdpMessageView>,
    event: TunnelEvent<UdpMessageView, Seq<u8>>,
) -> WritePoll<UdpMessageView, Seq<u8>> {
    let poll = |state: TunnelWriteState<UdpMessageView>, ready: bool, effect: TunnelEffect<Seq<u8>>|
        WritePoll { state, ready, effect };
    match (state, event) {
        (TunnelWriteState::Recv, TunnelEvent::Received(Some(message))) => poll(
            TunnelWriteState::Write(message),
            true,
            TunnelEffect::Nothing,
        ),
        (TunnelWriteState::Write(message), TunnelEvent::SendReady(true)) => poll(
            TunnelWriteState::Send(message),
            true,
            TunnelEffect::Send(packet_bytes(tunnel_id, message)),
        ),
        (TunnelWriteState::Send(_), TunnelEvent::Sent) => poll(
            TunnelWriteState::Recv,
            true,
            TunnelEffect::Nothing,
        ),
        (TunnelWriteState::Send(message), TunnelEvent::Pending) => poll(
            TunnelWriteState::Write(message),
            false,
            TunnelEffect::Nothing,
        ),
        (state, TunnelEvent::Pending) => poll(state, false, TunnelEffect::Nothing),
        _ => poll(TunnelWriteState::Stop, true, TunnelEffect::Nothing),
    }
}

impl TunnelState {
    /// A tunnel that has just been created
    pub open spec fn start(tunnel_id: u32) -> TunnelState {
        TunnelState {
            tunnel_id,
            write_state: TunnelWriteState::Recv,
            reply_due: false,
            half: TunnelHalf::Write,
        }
    }

    /// Whether the state can come up: a reply is under way only while it is to
    /// be sent, a packet is being sent only while the tunnel writes, a reply is
    /// due only behind a message, and writing has stopped only if the tunnel has
    pub open spec fn well_formed(self) -> bool {
        &&& self.half == TunnelHalf::Reply ==> self.write_state is Write || self.write_state is Send
        &&& self.write_state is Send ==> self.half == TunnelHalf::Write || self.half
            == TunnelHalf::Reply
        &&& self.reply_due ==> !(self.write_state is Recv)
        &&& self.write_state is Stop ==> self.half == TunnelHalf::Stopped
    }

    /// What the tunnel has to know next
    pub open spec fn question(self) -> TunnelQuestion {
        match self.half {
            TunnelHalf::Read => TunnelQuestion::RecvReady,
            TunnelHalf::Datagram => TunnelQuestion::Recv,
            _ => self.write_state.question(),
        }
    }

    /// Whether the tunnel still runs and `event` is what it has to know
    pub open spec fn takes(self, event: TunnelEvent<UdpMessageView, Seq<u8>>) -> bool {
        match self.half {
            TunnelHalf::Read => event is Pending || event is RecvReady,
            TunnelHalf::Datagram => event is Pending || event is Datagram,
            TunnelHalf::Stopped => false,
            _ => self.write_state.takes(event),
        }
    }
}

/// One step of a tunnel
pub struct TunnelStep {
    /// The state after the step
    pub state: TunnelState,
    /// What has to be done
    pub effect: TunnelEffect<Seq<u8>>,
    /// How polling goes on
    pub progress: Progress,
}

impl TunnelStep {
    /// The step to a state in which polling goes on
    pub open spec fn go_on(state: TunnelState) -> TunnelStep {
        TunnelStep { state, effect: TunnelEffect::Nothing, progress: Progress::Continue }
    }

    /// The step that ends polling. It starts with writing the next time.
    pub open spec fn park(state: TunnelState) -> TunnelStep {
        TunnelStep {
            state: TunnelState { half: TunnelHalf::Write, ..state },
            effect: TunnelEffect::Nothing,
            progress: Progress::Pending,
        }
    }

    /// The step that stops a tunnel
    pub open spec fn stop(state: TunnelState) -> TunnelStep {
        TunnelStep {
            state: TunnelState { half: TunnelHalf::Stopped, ..state },
            effect: TunnelEffect::Nothing,
            progress: Progress::Stopped,
        }
    }
}

/// What a tunnel makes of an answer while it writes: it goes on writing until
/// an answer is pending, then reads. A reply that is due is written as soon as
/// the message in front of it was sent. After a reply that was written at once
/// reading goes on.
pub open spec fn tunnel_write_step(
    state: TunnelState,
    event: TunnelEvent<UdpMessageView, Seq<u8>>,
) -> TunnelStep {
    let poll = write_poll(state.tunnel_id, state.write_state, event);
    let next = if poll.state is Recv && state.reply_due {
        TunnelState {
            write_state: TunnelWriteState::Write(UdpMessageView::KeepAlive),
            reply_due: false,
            ..state
        }
    } else {
        TunnelState { write_state: poll.state, ..state }
    };
    if poll.state is Stop {
        TunnelStep::stop(next)
    } else if poll.ready && (state.half == TunnelHalf::Write || poll.state is Send) {
        TunnelStep { effect: poll.effect, ..TunnelStep::go_on(next) }
    } else {
        TunnelStep::go_on(TunnelState { half: TunnelHalf::Read, ..next })
    }
}

/// What a tunnel makes of a message that was read: a forwarded message is
/// handed to the socket with its index if the pool has one, a keep-alive
/// message is answered at once or behind the message that is being written, and
/// any other is ignored
pub open spec fn tunnel_message_step(state: TunnelState, message: UdpMessageView) -> TunnelStep {
    let reading = TunnelStep::go_on(TunnelState { half: TunnelHalf::Read, ..state });
    match message {
        UdpMessageView::Forward { index, message } => TunnelStep {
            effect: if index < SOCKET_POOL_SIZE {
                TunnelEffect::Deliver(index as usize, message)
            } else {
                TunnelEffect::Nothing
            },
            ..reading
        },
        UdpMessageView::KeepAlive => if state.write_state is Recv {
            TunnelStep::go_on(
                TunnelState {
                    write_state: TunnelWriteState::Write(UdpMessageView::KeepAlive),
                    half: TunnelHalf::Reply,
                    ..state
                },
            )
        } else {
            TunnelStep::go_on(TunnelState { reply_due: true, half: TunnelHalf::Read, ..state })
        },
        _ => reading,
    }
}

/// What a tunnel makes of an answer.
///
/// While it reads, polling ends when nothing is there to read. The tunnel stops
/// when the socket fails or a packet is malformed.
pub open spec fn tunnel_step(
    state: TunnelState,
    event: TunnelEvent<UdpMessageView, Seq<u8>>,
) -> TunnelStep {
    match (state.half, event) {
        (TunnelHalf::Read, TunnelEvent::RecvReady(true)) => TunnelStep::go_on(
            TunnelState { half: TunnelHalf::Datagram, ..state },
        ),
        (TunnelHalf::Datagram, TunnelEvent::Datagram(Some(bytes))) => match packet_in(bytes) {
            Ok(packet) => tunnel_message_step(state, packet.message),
            Err(_) => TunnelStep::stop(state),
        },
        (TunnelHalf::Read, TunnelEvent::Pending) => TunnelStep::park(state),
        (TunnelHalf::Datagram, TunnelEvent::Pending) => TunnelStep::park(state),
        (TunnelHalf::Write, _) => tunnel_write_step(state, event),
        (TunnelHalf::Reply, _) => tunnel_write_step(state, event),
        _ => TunnelStep::stop(state),
    }
}

/// Makes the next state and the effect out of the answer to what the writing
/// part of a tunnel has to know
///
/// ## Arguments
/// * `tunnel_id` - The ID of the tunnel
/// * `state`     - The state of writing
/// * `event`     - The answer
pub fn poll_write_state(
    tunnel_id: u32,
    state: TunnelWriteState<UdpMessage>,
    event: TunnelEvent<UdpMessage, &[u8]>,
) -> (poll: WritePoll<UdpMessage, Vec<u8>>)
    requires
        !(state is Stop),
        state@.takes(event@),
    ensures
        poll.state@ == write_poll(tunnel_id, state@, event@).state,
        poll.ready == write_poll(tunnel_id, state@, event@).ready,
        poll.effect@ == write_poll(tunnel_id, state@, event@).effect,
{
    match (state, event) {
        // The message waits for the socket to be writable again
        (TunnelWriteState::Send(message), TunnelEvent::Pending) => WritePoll {
            state: TunnelWriteState::Write(message),
            ready: false,
            effect: TunnelEffect::Nothing,
        },
        (state, TunnelEvent::Pending) => WritePoll {
            state,
            ready: false,
            effect: TunnelEffect::Nothing,
        },
        (TunnelWriteState::Recv, TunnelEvent::Received(Some(message))) => WritePoll {
            state: TunnelWriteState::Write(message),
            ready: true,
            effect: TunnelEffect::Nothing,
        },
        (TunnelWriteState::Write(message), TunnelEvent::SendReady(true)) => {
            let packet = serialize_message(tunnel_id, &message);
            WritePoll {
                state: TunnelWriteState::Send(message),
                ready: true,
                effect: TunnelEffect::Send(packet),
            }
        },
        (TunnelWriteState::Send(_), TunnelEvent::Sent) => WritePoll {
            state: TunnelWriteState::Recv,
            ready: true,
            effect: TunnelEffect::Nothing,
        },
        // All writers have closed or the socket has failed
        _ => WritePoll {
            state: TunnelWriteState::Stop,
            ready: true,
            effect: TunnelEffect::Nothing,
        },
    }
}

impl Tunnel {
    /// Creates a tunnel that waits for its first message
    ///
    /// ## Arguments
    /// * `tunnel_id` - The ID of the tunnel
    pub fn new(tunnel_id: u32) -> (tunnel: Tunnel)
        ensures
            tunnel@ == TunnelState::start(tunnel_id),
            tunnel@.well_formed(),
    {
        Tunnel {
            tunnel_id,
            write_state: TunnelWriteState::Recv,
            reply_due: false,
            half: TunnelHalf::Write,
        }
    }

    /// Provides what the tunnel has to know next
    pub fn question(&self) -> (question: TunnelQuestion)
        requires
            self@.half != TunnelHalf::Stopped,
        ensures
            question == self@.question(),
    {
        match self.half {
            TunnelHalf::Read => TunnelQuestion::RecvReady,
            TunnelHalf::Datagram => TunnelQuestion::Recv,
            _ => match &self.write_state {
                TunnelWriteState::Write(_) => TunnelQuestion::SendReady,
                TunnelWriteState::Send(_) => TunnelQuestion::Send,
                _ => TunnelQuestion::Receive,
            },
        }
    }

    /// Whether a message waits for the socket, and a packet can carry it
    pub fn sendable(&self) -> (sendable: bool)
        ensures
            sendable == self@.write_state.sendable(),
    {
        match &self.write_state {
            TunnelWriteState::Write(message) => message.fits(),
            _ => false,
        }
    }

    /// Polls the writing part with the answer to what it has to know
    fn poll_write(&mut self, event: TunnelEvent<UdpMessage, &[u8]>) -> (result: (
        TunnelEffect<Vec<u8>>,
        Progress,
    ))
        requires
            old(self)@.well_formed(),
            old(self)@.half == TunnelHalf::Write || old(self)@.half == TunnelHalf::Reply,
            old(self)@.takes(event@),
        ensures
            ({
                let step = tunnel_write_step(old(self)@, event@);
                &&& final(self)@ == step.state
                &&& final(self)@.well_formed()
                &&& result.0@ == step.effect
                &&& result.1 == step.progress
            }),
    {
        let mut state = TunnelWriteState::Recv;
        core::mem::swap(&mut state, &mut self.write_state);
        let poll = poll_write_state(self.tunnel_id, state, event);
        let stopped = matches!(poll.state, TunnelWriteState::Stop);
        let sending = matches!(poll.state, TunnelWriteState::Send(_));
        if self.reply_due && matches!(poll.state, TunnelWriteState::Recv) {
            // The message in front of the reply was sent
            self.write_state = TunnelWriteState::Write(UdpMessage::KeepAlive);
            self.reply_due = false;
        } else {
            self.write_state = poll.state;
        }
        if stopped {
            self.half = TunnelHalf::Stopped;
            (poll.effect, Progress::Stopped)
        } else {
            if !poll.ready || (self.half != TunnelHalf::Write && !sending) {
                self.half = TunnelHalf::Read;
            }
            (poll.effect, Progress::Continue)
        }
    }

    /// Handles a packet that was read from the server
    fn read_packet(&mut self, bytes: &[u8]) -> (result: (TunnelEffect<Vec<u8>>, Progress))
        requires
            old(self)@.well_formed(),
            old(self)@.half == TunnelHalf::Datagram,
        ensures
            ({
                let step = tunnel_step(old(self)@, TunnelEvent::Datagram(Some(bytes@)));
                &&& final(self)@ == step.state
                &&& final(self)@.well_formed()
                &&& result.0@ == step.effect
                &&& result.1 == step.progress
            }),
    {
        let packet = match deserialize_message(bytes) {
            Ok(packet) => packet,
            // Encountered invalid tunnel message
            Err(_) => {
                self.half = TunnelHalf::Stopped;
                return (TunnelEffect::Nothing, Progress::Stopped);
            },
        };
        self.half = TunnelHalf::Read;
        match packet.message {
            // Send forwarded messages to the correct socket handle
            UdpMessage::Forward { index, message } => {
                let index: usize = index as usize;
                if index < SOCKET_POOL_SIZE {
                    return (TunnelEffect::Deliver(index, message), Progress::Continue);
                }
            },
            // Reply to keep-alive message
            UdpMessage::KeepAlive => {
                if matches!(self.write_state, TunnelWriteState::Recv) {
                    self.write_state = TunnelWriteState::Write(UdpMessage::KeepAlive);
                    self.half = TunnelHalf::Reply;
                } else {
                    // Another message is being written, reply behind it
                    self.reply_due = true;
                }
            },
            // Ignore unexpected messages
            _ => {},
        }
        (TunnelEffect::Nothing, Progress::Continue)
    }

    /// Takes the answer to what the tunnel has to know, and provides what has
    /// to be done and how polling goes on
    pub fn poll(&mut self, event: TunnelEvent<UdpMessage, &[u8]>) -> (result: (
        TunnelEffect<Vec<u8>>,
        Progress,
    ))
        requires
            old(self)@.well_formed(),
            old(self)@.takes(event@),
        ensures
            ({
                let step = tunnel_step(old(self)@, event@);
                &&& final(self)@ == step.state
                &&& final(self)@.well_formed()
                &&& result.0@ == step.effect
                &&& result.1 == step.progress
            }),
            result.1 == Progress::Stopped <==> final(self)@.half == TunnelHalf::Stopped,
    {
        match (self.half, event) {
            (TunnelHalf::Read, TunnelEvent::RecvReady(true)) => {
                self.half = TunnelHalf::Datagram;
                (TunnelEffect::Nothing, Progress::Continue)
            },
            (TunnelHalf::Datagram, TunnelEvent::Datagram(Some(bytes))) => self.read_packet(bytes),
            (TunnelHalf::Read, TunnelEvent::Pending) | (
                TunnelHalf::Datagram,
                TunnelEvent::Pending,
            ) => {
                self.half = TunnelHalf::Write;
                (TunnelEffect::Nothing, Progress::Pending)
            },
            (TunnelHalf::Write, event) | (TunnelHalf::Reply, event) => self.poll_write(event),
            // Cannot read next message stop the tunnel
            _ => {
                self.half = TunnelHalf::Stopped;
                (TunnelEffect::Nothing, Progress::Stopped)
            },
        }
    }
}

} // verus!
