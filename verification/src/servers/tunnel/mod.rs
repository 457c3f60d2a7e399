//! Tunneling server
//!
//! Provides a local tunnel that connects clients by tunneling through the Pocket Relay
//! server. This allows clients with more strict NATs to host games without common issues
//! faced when trying to connect
//!
//! A tunnel and the sockets of its pool are state machines: each names the one
//! thing it has to know next, is told the answer, and says what is to be done.
//!
//! Details can be found on the GitHub issue: https://github.com/PocketRelay/Server/issues/64

use vstd::prelude::*;

use self::codec::{MessageView, TunnelMessage};
use super::{Progress, SOCKET_POOL_SIZE};
use crate::buffer::bytes_new;

pub mod codec;
pub mod laws;

verus! {

/// The index of keep-alive messages
pub const KEEP_ALIVE_INDEX: u8 = 255;

/// Holds the state for the current writing progress for a [`Tunnel`]
pub enum TunnelWriteState<M> {
    /// Waiting for a message to come from the sockets of the pool
    Recv,
    /// Waiting for the connection to be writable, then writing the
    /// contained message
    Write(M),
    /// Flushing the bytes written to the connection
    Flush,
    /// The tunnel has stopped and should not continue
    Stop,
}

/// What a tunnel has to know next
#[derive(Debug, Clone, Copy, PartialEq, Eq, Structural)]
pub enum TunnelQuestion {
    /// Whether a socket of the pool has a message to send
    Receive,
    /// Whether the connection can take a message
    Ready,
    /// Whether the connection has been flushed
    Flush,
    /// Whether the connection has a message for the pool
    Next,
}

/// The answer to what a tunnel has to know
pub enum TunnelEvent<M> {
    /// The answer is not known yet
    Pending,
    /// A message from a socket of the pool, or none when all of them are closed
    Received(Option<M>),
    /// Whether the connection is ready, or has failed
    Ready(bool),
    /// Whether the connection has been flushed, or has failed
    Flushed(bool),
    /// A message from the connection, or none when it has ended or failed
    Next(Option<M>),
}

/// What has to be done for a tunnel
pub enum TunnelEffect<M> {
    /// Nothing
    Nothing,
    /// Write the message to the connection
    Send(M),
    /// Hand the message to the socket with the index within the pool
    Deliver(usize, M),
}

/// The part of a tunnel that is being polled
#[derive(Debug, Clone, Copy, PartialEq, Eq, Structural)]
pub enum TunnelHalf {
    /// Messages from the pool to the connection
    Write,
    /// Messages from the connection to the pool
    Read,
    /// The answer to a keep-alive message that was just read
    Reply,
    /// None: the tunnel has stopped
    Stopped,
}

/// Represents a tunnel and its pool of connections that it can
/// send data to and receive data from
pub struct Tunnel {
    /// Current state of writing messages to the connection
    write_state: TunnelWriteState<TunnelMessage>,
    /// The part that is being polled
    half: TunnelHalf,
}

/// The state of a tunnel, with its messages as plain values
pub struct TunnelState {
    /// Current state of writing messages to the connection
    pub write_state: TunnelWriteState<MessageView>,
    /// The part that is being polled
    pub half: TunnelHalf,
}

/// The value of an optional message
pub open spec fn option_view<M: View>(message: Option<M>) -> Option<M::V> {
    match message {
        Some(message) => Some(message@),
        None => None,
    }
}

impl<M: View> View for TunnelWriteState<M> {
    type V = TunnelWriteState<M::V>;

    open spec fn view(&self) -> TunnelWriteState<M::V> {
        match *self {
            TunnelWriteState::Recv => TunnelWriteState::Recv,
            TunnelWriteState::Write(message) => TunnelWriteState::Write(message@),
            TunnelWriteState::Flush => TunnelWriteState::Flush,
            TunnelWriteState::Stop => TunnelWriteState::Stop,
        }
    }
}

impl<M: View> View for TunnelEvent<M> {
    type V = TunnelEvent<M::V>;

    open spec fn view(&self) -> TunnelEvent<M::V> {
        match *self {
            TunnelEvent::Pending => TunnelEvent::Pending,
            TunnelEvent::Received(message) => TunnelEvent::Received(option_view(message)),
            TunnelEvent::Ready(ok) => TunnelEvent::Ready(ok),
            TunnelEvent::Flushed(ok) => TunnelEvent::Flushed(ok),
            TunnelEvent::Next(message) => TunnelEvent::Next(option_view(message)),
        }
    }
}

impl<M: View> View for TunnelEffect<M> {
    type V = TunnelEffect<M::V>;

    open spec fn view(&self) -> TunnelEffect<M::V> {
        match *self {
            TunnelEffect::Nothing => TunnelEffect::Nothing,
            TunnelEffect::Send(message) => TunnelEffect::Send(message@),
            TunnelEffect::Deliver(index, message) => TunnelEffect::Deliver(index, message@),
        }
    }
}

impl View for Tunnel {
    type V = TunnelState;

    closed spec fn view(&self) -> TunnelState {
        TunnelState { write_state: self.write_state@, half: self.half }
    }
}

/// The message that answers a keep-alive message
pub open spec fn keep_alive() -> MessageView {
    MessageView { index: KEEP_ALIVE_INDEX, message: Seq::empty() }
}

/// One poll of the writing part of a tunnel
pub struct WritePoll<M> {
    /// The state after the poll, the same as before while an answer is pending
    pub state: TunnelWriteState<M>,
    /// Whether the answer was known
    pub ready: bool,
    /// What has to be done
    pub effect: TunnelEffect<M>,
}

impl<M> TunnelWriteState<M> {
    /// What the writing part of a tunnel has to know next
    pub open spec fn question(self) -> TunnelQuestion {
        match self {
            TunnelWriteState::Write(_) => TunnelQuestion::Ready,
            TunnelWriteState::Flush => TunnelQuestion::Flush,
            _ => TunnelQuestion::Receive,
        }
    }
}

/// Whether an event answers a question
pub open spec fn answers<M>(question: TunnelQuestion, event: TunnelEvent<M>) -> bool {
    match event {
        TunnelEvent::Pending => true,
        TunnelEvent::Received(_) => question == TunnelQuestion::Receive,
        TunnelEvent::Ready(_) => question == TunnelQuestion::Ready,
        TunnelEvent::Flushed(_) => question == TunnelQuestion::Flush,
        TunnelEvent::Next(_) => question == TunnelQuestion::Next,
    }
}

/// What the writing part of a tunnel makes of an answer: a received message is
/// written once the connection is ready, then flushed, then the next one is
/// received. It stops when the pool is closed or the connection fails.
pub open spec fn write_poll<M>(state: TunnelWriteState<M>, event: TunnelEvent<M>) -> WritePoll<M> {
    let next = |state: TunnelWriteState<M>, effect: TunnelEffect<M>|
        WritePoll { state, ready: true, effect };
    match (state, event) {
        (TunnelWriteState::Recv, TunnelEvent::Received(Some(message))) => next(
            TunnelWriteState::Write(message),
            TunnelEffect::Nothing,
        ),
        (TunnelWriteState::Write(message), TunnelEvent::Ready(true)) => next(
            TunnelWriteState::Flush,
            TunnelEffect::Send(message),
        ),
        (TunnelWriteState::Flush, TunnelEvent::Flushed(true)) => next(
            TunnelWriteState::Recv,
            TunnelEffect::Nothing,
        ),
        (state, TunnelEvent::Pending) => WritePoll {
            state,
            ready: false,
            effect: TunnelEffect::Nothing,
        },
        _ => next(TunnelWriteState::Stop, TunnelEffect::Nothing),
    }
}

impl TunnelState {
    /// A tunnel that has just been created
    pub open spec fn start() -> TunnelState {
        TunnelState { write_state: TunnelWriteState::Recv, half: TunnelHalf::Write }
    }

    /// Whether the state can come up: a reply is under way only while it is
    /// to be written, and writing has stopped only if the tunnel has
    pub open spec fn well_formed(self) -> bool {
        &&& self.half == TunnelHalf::Reply ==> self.write_state is Write
        &&& self.write_state is Stop ==> self.half == TunnelHalf::Stopped
    }

    /// What the tunnel has to know next
    pub open spec fn question(self) -> TunnelQuestion {
        if self.half == TunnelHalf::Read {
            TunnelQuestion::Next
        } else {
            self.write_state.question()
        }
    }

    /// Whether the tunnel still runs and `event` is what it has to know
    pub open spec fn takes(self, event: TunnelEvent<MessageView>) -> bool {
        self.half != TunnelHalf::Stopped && answers(self.question(), event)
    }
}

/// One step of a tunnel
pub struct TunnelStep {
    /// The state after the step
    pub state: TunnelState,
    /// What has to be done
    pub effect: TunnelEffect<MessageView>,
    /// How polling goes on
    pub progress: Progress,
}

/// What a tunnel makes of an answer while it writes: it goes on writing until
/// an answer is pending, then reads. The reply to a keep-alive message is
/// polled once only, then reading goes on.
pub open spec fn tunnel_write_step(
    state: TunnelState,
    event: TunnelEvent<MessageView>,
) -> TunnelStep {
    let poll = write_poll(state.write_state, event);
    if poll.state is Stop {
        TunnelStep {
            state: TunnelState { write_state: poll.state, half: TunnelHalf::Stopped },
            effect: poll.effect,
            progress: Progress::Stopped,
        }
    } else {
        TunnelStep {
            state: TunnelState {
                write_state: poll.state,
                half: if poll.ready && state.half == TunnelHalf::Write {
                    TunnelHalf::Write
                } else {
                    TunnelHalf::Read
                },
            },
            effect: poll.effect,
            progress: Progress::Continue,
        }
    }
}

/// What a tunnel makes of a message that was read: a keep-alive message is
/// answered unless another message is being written, any other is handed to
/// the socket with its index if the pool has one
pub open spec fn tunnel_message_step(state: TunnelState, message: MessageView) -> TunnelStep {
    if message.index == KEEP_ALIVE_INDEX {
        TunnelStep {
            state: if state.write_state is Recv {
                TunnelState {
                    write_state: TunnelWriteState::Write(keep_alive()),
                    half: TunnelHalf::Reply,
                }
            } else {
                state
            },
            effect: TunnelEffect::Nothing,
            progress: Progress::Continue,
        }
    } else {
        TunnelStep {
            state,
            effect: if message.index < SOCKET_POOL_SIZE {
                TunnelEffect::Deliver(message.index as usize, message)
            } else {
                TunnelEffect::Nothing
            },
            progress: Progress::Continue,
        }
    }
}

/// What a tunnel makes of an answer while it reads. When nothing is there to
/// read polling ends, and starts with writing the next time.
pub open spec fn tunnel_read_step(
    state: TunnelState,
    event: TunnelEvent<MessageView>,
) -> TunnelStep {
    match event {
        TunnelEvent::Next(Some(message)) => tunnel_message_step(state, message),
        TunnelEvent::Pending => TunnelStep {
            state: TunnelState { half: TunnelHalf::Write, ..state },
            effect: TunnelEffect::Nothing,
            progress: Progress::Pending,
        },
        _ => TunnelStep {
            state: TunnelState { half: TunnelHalf::Stopped, ..state },
            effect: TunnelEffect::Nothing,
            progress: Progress::Stopped,
        },
    }
}

/// What a tunnel makes of an answer
pub open spec fn tunnel_step(state: TunnelState, event: TunnelEvent<MessageView>) -> TunnelStep {
    if state.half == TunnelHalf::Read {
        tunnel_read_step(state, event)
    } else {
        tunnel_write_step(state, event)
    }
}

/// Makes the next state and the effect out of the answer to what the writing
/// part of a tunnel has to know
pub fn poll_write_state(
    state: TunnelWriteState<TunnelMessage>,
    event: TunnelEvent<TunnelMessage>,
) -> (poll: WritePoll<TunnelMessage>)
    requires
        !(state is Stop),
        answers(state@.question(), event@),
    ensures
        poll.state@ == write_poll(state@, event@).state,
        poll.ready == write_poll(state@, event@).ready,
        poll.effect@ == write_poll(state@, event@).effect,
{
    match (state, event) {
        (state, TunnelEvent::Pending) => WritePoll {
            state,
            ready: false,
            effect: TunnelEffect::Nothing,
        },
        (TunnelWriteState::Recv, TunnelEvent::Received(Some(message))) => WritePoll {
            state: TunnelWriteState::Write(message),
            ready: true,
            effect: TunnelEffect::Nothing,
        },
        (TunnelWriteState::Write(message), TunnelEvent::Ready(true)) => WritePoll {
            state: TunnelWriteState::Flush,
            ready: true,
            effect: TunnelEffect::Send(message),
        },
        (TunnelWriteState::Flush, TunnelEvent::Flushed(true)) => WritePoll {
            state: TunnelWriteState::Recv,
            ready: true,
            effect: TunnelEffect::Nothing,
        },
        // All writers have closed or the connection has failed
        _ => WritePoll {
            state: TunnelWriteState::Stop,
            ready: true,
            effect: TunnelEffect::Nothing,
        },
    }
}

impl Tunnel {
    /// Creates a tunnel that waits for its first message
    pub fn new() -> (tunnel: Tunnel)
        ensures
            tunnel@ == TunnelState::start(),
            tunnel@.well_formed(),
    {
        Tunnel { write_state: TunnelWriteState::Recv, half: TunnelHalf::Write }
    }

    /// Provides what the tunnel has to know next
    pub fn question(&self) -> (question: TunnelQuestion)
        requires
            self@.half != TunnelHalf::Stopped,
        ensures
            question == self@.question(),
    {
        match self.half {
            TunnelHalf::Read => TunnelQuestion::Next,
            _ => match &self.write_state {
                TunnelWriteState::Write(_) => TunnelQuestion::Ready,
                TunnelWriteState::Flush => TunnelQuestion::Flush,
                _ => TunnelQuestion::Receive,
            },
        }
    }

    /// Polls the writing part with the answer to what it has to know
    fn poll_write(&mut self, event: TunnelEvent<TunnelMessage>) -> (result: (
        TunnelEffect<TunnelMessage>,
        Progress,
    ))
        requires
            old(self)@.well_formed(),
            old(self)@.takes(event@),
            old(self)@.half != TunnelHalf::Read,
        ensures
            ({
                let step = tunnel_write_step(old(self)@, event@);
                &&& final(self)@ == step.state
                &&& final(self)@.well_formed()
                &&& result.0@ == step.effect
                &&& result.1 == step.progress
            }),
    {
        let mut state = TunnelWriteState::Recv;
        core::mem::swap(&mut state, &mut self.write_state);
        let poll = poll_write_state(state, event);
        let stopped = matches!(poll.state, TunnelWriteState::Stop);
        self.write_state = poll.state;
        if stopped {
            self.half = TunnelHalf::Stopped;
            (poll.effect, Progress::Stopped)
        } else {
            if !poll.ready || self.half != TunnelHalf::Write {
                self.half = TunnelHalf::Read;
            }
            (poll.effect, Progress::Continue)
        }
    }

    /// Handles a message that was read from the connection
    fn read_message(&mut self, message: TunnelMessage) -> (result: (
        TunnelEffect<TunnelMessage>,
        Progress,
    ))
        requires
            old(self)@.well_formed(),
            old(self)@.half == TunnelHalf::Read,
        ensures
            ({
                let step = tunnel_message_step(old(self)@, message@);
                &&& final(self)@ == step.state
                &&& final(self)@.well_formed()
                &&& result.0@ == step.effect
                &&& result.1 == step.progress
            }),
    {
        if message.index == KEEP_ALIVE_INDEX {
            // Write a ping response if we aren't already writing another message
            if matches!(self.write_state, TunnelWriteState::Recv) {
                // Move to a writing state
                self.write_state =
                TunnelWriteState::Write(
                    TunnelMessage { index: KEEP_ALIVE_INDEX, message: bytes_new() },
                );
                self.half = TunnelHalf::Reply;
            }
            return (TunnelEffect::Nothing, Progress::Continue);
        }
        // Get the handle to use within the connection pool

        let index: usize = message.index as usize;

        // Send the message to the handle if its valid
        if index < SOCKET_POOL_SIZE {
            (TunnelEffect::Deliver(index, message), Progress::Continue)
        } else {
            (TunnelEffect::Nothing, Progress::Continue)
        }
    }

    /// Polls the reading part with the answer to what it has to know
    fn poll_read(&mut self, event: TunnelEvent<TunnelMessage>) -> (result: (
        TunnelEffect<TunnelMessage>,
        Progress,
    ))
        requires
            old(self)@.well_formed(),
            old(self)@.takes(event@),
            old(self)@.half == TunnelHalf::Read,
        ensures
            ({
                let step = tunnel_read_step(old(self)@, event@);
                &&& final(self)@ == step.state
                &&& final(self)@.well_formed()
                &&& result.0@ == step.effect
                &&& result.1 == step.progress
            }),
    {
        match event {
            TunnelEvent::Next(Some(message)) => self.read_message(message),
            TunnelEvent::Pending => {
                self.half = TunnelHalf::Write;
                (TunnelEffect::Nothing, Progress::Pending)
            },
            // Cannot read next message stop the tunnel
            _ => {
                self.half = TunnelHalf::Stopped;
                (TunnelEffect::Nothing, Progress::Stopped)
            },
        }
    }

    /// Takes the answer to what the tunnel has to know, and provides what has
    /// to be done and how polling goes on
    pub fn poll(&mut self, event: TunnelEvent<TunnelMessage>) -> (result: (
        TunnelEffect<TunnelMessage>,
        Progress,
    ))
        requires
            old(self)@.well_formed(),
            old(self)@.takes(event@),
        ensures
            ({
                let step = tunnel_step(old(self)@, event@);
                &&& final(self)@ == step.state
                &&& final(self)@.well_formed()
                &&& result.0@ == step.effect
                &&& result.1 == step.progress
            }),
            result.1 == Progress::Stopped <==> final(self)@.half == TunnelHalf::Stopped,
    {
        if self.half == TunnelHalf::Read {
            self.poll_read(event)
        } else {
            self.poll_write(event)
        }
    }
}

} // verus!
