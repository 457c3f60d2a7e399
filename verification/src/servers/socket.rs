//! The sockets of a tunnel's pool
//!
//! A socket passes messages between a tunnel and the game on the local
//! network, in order to simulate another player. It is a state machine: it
//! names the one thing it has to know next, is told the answer, and says what
//! is to be done. Both kinds of tunnels use it, with their own kind of buffer.

use vstd::prelude::*;

use super::Progress;
use crate::buffer::{bytes_copy, bytes_from, bytes_len, contents};

verus! {

/// A buffer that holds the bytes of a message
pub trait Payload: Sized {
    /// The bytes of the message
    spec fn bytes(&self) -> Seq<u8>;

    /// Provides the number of bytes
    fn count(&self) -> (count: usize)
        ensures
            count == self.bytes().len(),
    ;

    /// Provides the bytes from `start` on
    fn tail(self, start: usize) -> (tail: Self)
        requires
            start <= self.bytes().len(),
        ensures
            tail.bytes() == self.bytes().skip(start as int),
    ;

    /// Provides a buffer with a copy of `slice`
    fn copy(slice: &[u8]) -> (payload: Self)
        ensures
            payload.bytes() == slice@,
    ;
}

impl Payload for bytes::Bytes {
    open spec fn bytes(&self) -> Seq<u8> {
        contents(*self)
    }

    fn count(&self) -> (count: usize) {
        bytes_len(self)
    }

    fn tail(self, start: usize) -> (tail: Self) {
        bytes_from(&self, start)
    }

    fn copy(slice: &[u8]) -> (payload: Self) {
        bytes_copy(slice)
    }
}

impl Payload for Vec<u8> {
    open spec fn bytes(&self) -> Seq<u8> {
        self@
    }

    fn count(&self) -> (count: usize) {
        self.len()
    }

    fn tail(self, start: usize) -> (tail: Self) {
        let mut message = self;
        let tail = message.split_off(start);
        assert(tail@ =~= self@.skip(start as int));
        tail
    }

    fn copy(slice: &[u8]) -> (payload: Self) {
        let mut payload: Vec<u8> = Vec::new();
        payload.extend_from_slice(slice);
        assert(payload@ =~= slice@);
        payload
    }
}

/// Holds the state for the current writing progress for a [`Socket`]
pub enum SocketWriteState<P> {
    /// Waiting for a message to come from the tunnel
    Recv,
    /// Waiting for the socket to write the bytes
    Write(P),
    /// The socket has stopped and should not continue
    Stop,
}

/// What a socket has to know next
#[derive(Debug, Clone, Copy, PartialEq, Eq, Structural)]
pub enum SocketQuestion {
    /// Whether the tunnel has a message to send
    Receive,
    /// How many bytes of the message that is being written were sent
    Send,
    /// Whether a message has arrived from the game
    Read,
    /// Whether the tunnel took the message that was handed to it
    Forward,
}

/// The answer to what a socket has to know
pub enum SocketEvent<P, R> {
    /// The answer is not known yet
    Pending,
    /// A message from the tunnel, or none when the tunnel is closed
    Received(Option<P>),
    /// The number of bytes that were sent, or none when sending has failed
    Sent(Option<usize>),
    /// A message from the game, or none when reading has failed
    Read(Option<R>),
    /// Whether the tunnel took the message, or is closed
    Forwarded(bool),
}

/// What has to be done for a socket
pub enum SocketEffect<P> {
    /// Nothing
    Nothing,
    /// Hand the message to the tunnel, from the socket with the index
    Forward(u8, P),
}

/// The part of a socket that is being polled
#[derive(Debug, Clone, Copy, PartialEq, Eq, Structural)]
pub enum SocketHalf {
    /// Messages from the tunnel to the game
    Write,
    /// Messages from the game to the tunnel
    Read,
    /// A message from the game that was just handed to the tunnel
    Forward,
    /// None: the socket has stopped
    Stopped,
}

/// Socket used by a tunnel for sending and receiving messages in
/// order to simulate another player on the local network
pub struct Socket<P> {
    /// Index of the socket
    index: u8,
    /// Current state of writing messages to the game
    write_state: SocketWriteState<P>,
    /// The part that is being polled
    half: SocketHalf,
}

/// The state of a socket, with its messages as plain values
pub struct SocketState {
    /// Index of the socket
    pub index: u8,
    /// Current state of writing messages to the game
    pub write_state: SocketWriteState<Seq<u8>>,
    /// The part that is being polled
    pub half: SocketHalf,
}

/// The value of the state of writing
pub open spec fn write_state_view<P: Payload>(state: SocketWriteState<P>) -> SocketWriteState<
    Seq<u8>,
> {
    match state {
        SocketWriteState::Recv => SocketWriteState::Recv,
        SocketWriteState::Write(message) => SocketWriteState::Write(message.bytes()),
        SocketWriteState::Stop => SocketWriteState::Stop,
    }
}

/// The value of an answer
pub open spec fn event_view<P: Payload>(event: SocketEvent<P, &[u8]>) -> SocketEvent<
    Seq<u8>,
    Seq<u8>,
> {
    match event {
        SocketEvent::Pending => SocketEvent::Pending,
        SocketEvent::Received(Some(message)) => SocketEvent::Received(Some(message.bytes())),
        SocketEvent::Received(None) => SocketEvent::Received(None),
        SocketEvent::Sent(count) => SocketEvent::Sent(count),
        SocketEvent::Read(Some(message)) => SocketEvent::Read(Some(message@)),
        SocketEvent::Read(None) => SocketEvent::Read(None),
        SocketEvent::Forwarded(taken) => SocketEvent::Forwarded(taken),
    }
}

/// The value of what has to be done
pub open spec fn effect_view<P: Payload>(effect: SocketEffect<P>) -> SocketEffect<Seq<u8>> {
    match effect {
        SocketEffect::Nothing => SocketEffect::Nothing,
        SocketEffect::Forward(index, message) => SocketEffect::Forward(index, message.bytes()),
    }
}

impl SocketState {
    /// A socket that has just been created
    pub open spec fn start(index: u8) -> SocketState {
        SocketState { index, write_state: SocketWriteState::Recv, half: SocketHalf::Write }
    }

    /// Whether the state can come up: writing has stopped only if the socket has
    pub open spec fn well_formed(self) -> bool {
        self.write_state is Stop ==> self.half == SocketHalf::Stopped
    }

    /// What the socket has to know next
    pub open spec fn question(self) -> SocketQuestion {
        match self.half {
            SocketHalf::Read => SocketQuestion::Read,
            SocketHalf::Forward => SocketQuestion::Forward,
            _ => if self.write_state is Write {
                SocketQuestion::Send
            } else {
                SocketQuestion::Receive
            },
        }
    }

    /// Whether the socket still runs and `event` is what it has to know. No
    /// more bytes can have been sent than were to be, and whether the tunnel
    /// took a message is known at once.
    pub open spec fn takes(self, event: SocketEvent<Seq<u8>, Seq<u8>>) -> bool {
        &&& self.half != SocketHalf::Stopped
        &&& match event {
            SocketEvent::Pending => self.question() != SocketQuestion::Forward,
            SocketEvent::Received(_) => self.question() == SocketQuestion::Receive,
            SocketEvent::Sent(count) => {
                &&& self.question() == SocketQuestion::Send
                &&& count is Some ==> count->0 <= self.write_state->0.len()
            },
            SocketEvent::Read(_) => self.question() == SocketQuestion::Read,
            SocketEvent::Forwarded(_) => self.question() == SocketQuestion::Forward,
        }
    }
}

/// One step of a socket
pub struct SocketStep {
    /// The state after the step
    pub state: SocketState,
    /// What has to be done
    pub effect: SocketEffect<Seq<u8>>,
    /// How polling goes on
    pub progress: Progress,
}

impl SocketStep {
    /// The step to a state in which polling goes on
    pub open spec fn go_on(state: SocketState) -> SocketStep {
        SocketStep { state, effect: SocketEffect::Nothing, progress: Progress::Continue }
    }

    /// The step that stops a socket
    pub open spec fn stop(state: SocketState) -> SocketStep {
        SocketStep {
            state: SocketState { half: SocketHalf::Stopped, ..state },
            effect: SocketEffect::Nothing,
            progress: Progress::Stopped,
        }
    }
}

/// What a socket makes of an answer.
///
/// A received message is sent until all of its bytes are, then the next one is
/// received. While an answer to this is pending messages are read, and each
/// one is handed to the tunnel. When nothing is there to read polling ends,
/// and starts with writing the next time. The socket stops when the tunnel is
/// closed, or when sending or reading fails.
pub open spec fn socket_step(
    state: SocketState,
    event: SocketEvent<Seq<u8>, Seq<u8>>,
) -> SocketStep {
    let writing = |write_state: SocketWriteState<Seq<u8>>|
        SocketStep::go_on(SocketState { write_state, ..state });
    let polling = |half: SocketHalf| SocketState { half, ..state };
    match event {
        SocketEvent::Received(Some(message)) => writing(SocketWriteState::Write(message)),
        SocketEvent::Sent(Some(count)) => if count != state.write_state->0.len() {
            writing(SocketWriteState::Write(state.write_state->0.skip(count as int)))
        } else {
            writing(SocketWriteState::Recv)
        },
        SocketEvent::Read(Some(message)) => SocketStep {
            effect: SocketEffect::Forward(state.index, message),
            ..SocketStep::go_on(polling(SocketHalf::Forward))
        },
        SocketEvent::Forwarded(true) => SocketStep::go_on(polling(SocketHalf::Read)),
        SocketEvent::Pending => if state.half == SocketHalf::Write {
            SocketStep::go_on(polling(SocketHalf::Read))
        } else {
            SocketStep {
                progress: Progress::Pending,
                ..SocketStep::go_on(polling(SocketHalf::Write))
            }
        },
        SocketEvent::Received(None) | SocketEvent::Sent(None) => SocketStep::stop(
            SocketState { write_state: SocketWriteState::Stop, ..state },
        ),
        SocketEvent::Read(None) | SocketEvent::Forwarded(false) => SocketStep::stop(state),
    }
}

impl<P: Payload> Socket<P> {
    /// The state of the socket, with its messages as plain values
    pub closed spec fn state(&self) -> SocketState {
        SocketState {
            index: self.index,
            write_state: write_state_view(self.write_state),
            half: self.half,
        }
    }

    /// Creates a socket that waits for its first message
    ///
    /// ## Arguments
    /// * `index` - The index of the socket
    pub fn new(index: u8) -> (socket: Socket<P>)
        ensures
            socket.state() == SocketState::start(index),
            socket.state().well_formed(),
    {
        Socket { index, write_state: SocketWriteState::Recv, half: SocketHalf::Write }
    }

    /// Provides what the socket has to know next
    pub fn question(&self) -> (question: SocketQuestion)
        requires
            self.state().half != SocketHalf::Stopped,
        ensures
            question == self.state().question(),
    {
        match self.half {
            SocketHalf::Read => SocketQuestion::Read,
            SocketHalf::Forward => SocketQuestion::Forward,
            _ => match &self.write_state {
                SocketWriteState::Write(_) => SocketQuestion::Send,
                _ => SocketQuestion::Receive,
            },
        }
    }

    /// Provides the bytes that are to be sent
    pub fn unsent(&self) -> (unsent: Option<&P>)
        ensures
            match unsent {
                Some(message) => self.state().write_state == SocketWriteState::Write(
                    message.bytes(),
                ),
                None => !(self.state().write_state is Write),
            },
    {
        match &self.write_state {
            SocketWriteState::Write(message) => Some(message),
            _ => None,
        }
    }

    /// Stops the writing part for good
    fn stop_writing(&mut self) -> (result: (SocketEffect<P>, Progress))
        ensures
            ({
                let step = SocketStep::stop(
                    SocketState { write_state: SocketWriteState::Stop, ..old(self).state() },
                );
                &&& final(self).state() == step.state
                &&& effect_view(result.0) == step.effect
                &&& result.1 == step.progress
            }),
    {
        self.write_state = SocketWriteState::Stop;
        self.half = SocketHalf::Stopped;
        (SocketEffect::Nothing, Progress::Stopped)
    }

    /// Polls the writing part with the number of bytes that were sent
    fn sent(&mut self, count: usize) -> (result: (SocketEffect<P>, Progress))
        requires
            old(self).state().well_formed(),
            old(self).state().takes(SocketEvent::Sent(Some(count))),
        ensures
            ({
                let step = socket_step(old(self).state(), SocketEvent::Sent(Some(count)));
                &&& final(self).state() == step.state
                &&& final(self).state().well_formed()
                &&& effect_view(result.0) == step.effect
                &&& result.1 == step.progress
            }),
    {
        let mut state = SocketWriteState::Recv;
        core::mem::swap(&mut state, &mut self.write_state);
        if let SocketWriteState::Write(message) = state {
            // Didn't write the entire message
            if count != message.count() {
                // Continue with a writing state at the remaining message
                self.write_state = SocketWriteState::Write(message.tail(count));
            }
        }
        (SocketEffect::Nothing, Progress::Continue)
    }

    /// Takes the answer to what the socket has to know, and provides what has
    /// to be done and how polling goes on
    pub fn poll(&mut self, event: SocketEvent<P, &[u8]>) -> (result: (SocketEffect<P>, Progress))
        requires
            old(self).state().well_formed(),
            old(self).state().takes(event_view(event)),
        ensures
            ({
                let step = socket_step(old(self).state(), event_view(event));
                &&& final(self).state() == step.state
                &&& final(self).state().well_formed()
                &&& effect_view(result.0) == step.effect
                &&& result.1 == step.progress
            }),
            result.1 == Progress::Stopped <==> final(self).state().half == SocketHalf::Stopped,
    {
        match event {
            SocketEvent::Received(Some(message)) => {
                self.write_state = SocketWriteState::Write(message);
                (SocketEffect::Nothing, Progress::Continue)
            },
            // All writers have closed, tunnel must be closed
            SocketEvent::Received(None) => self.stop_writing(),
            SocketEvent::Sent(Some(count)) => self.sent(count),
            SocketEvent::Sent(None) => self.stop_writing(),
            SocketEvent::Read(Some(bytes)) => {
                self.half = SocketHalf::Forward;
                (SocketEffect::Forward(self.index, P::copy(bytes)), Progress::Continue)
            },
            SocketEvent::Forwarded(true) => {
                self.half = SocketHalf::Read;
                (SocketEffect::Nothing, Progress::Continue)
            },
            SocketEvent::Read(None) | SocketEvent::Forwarded(false) => {
                self.half = SocketHalf::Stopped;
                (SocketEffect::Nothing, Progress::Stopped)
            },
            SocketEvent::Pending => if self.half == SocketHalf::Write {
                self.half = SocketHalf::Read;
                (SocketEffect::Nothing, Progress::Continue)
            } else {
                self.half = SocketHalf::Write;
                (SocketEffect::Nothing, Progress::Pending)
            },
        }
    }
}

/// The events that a socket was told, one after the other
pub type SocketRun = Seq<SocketEvent<Seq<u8>, Seq<u8>>>;

/// The state of a socket after a run of events
pub open spec fn state_after(index: u8, events: SocketRun) -> SocketState
    decreases events.len(),
{
    if events.len() == 0 {
        SocketState::start(index)
    } else {
        socket_step(state_after(index, events.drop_last()), events.last()).state
    }
}

/// Whether each event of a run is what the socket had to know then
pub open spec fn possible(index: u8, events: SocketRun) -> bool
    decreases events.len(),
{
    events.len() > 0 ==> {
        &&& possible(index, events.drop_last())
        &&& state_after(index, events.drop_last()).takes(events.last())
    }
}

/// The bytes of all messages that came from the tunnel, in order
pub open spec fn received_bytes(events: SocketRun) -> Seq<u8>
    decreases events.len(),
{
    if events.len() == 0 {
        Seq::empty()
    } else {
        match events.last() {
            SocketEvent::Received(Some(message)) => received_bytes(events.drop_last()) + message,
            _ => received_bytes(events.drop_last()),
        }
    }
}

/// The bytes that were sent to the game, in order
pub open spec fn sent_bytes(index: u8, events: SocketRun) -> Seq<u8>
    decreases events.len(),
{
    if events.len() == 0 {
        Seq::empty()
    } else {
        let earlier = sent_bytes(index, events.drop_last());
        match events.last() {
            SocketEvent::Sent(Some(count)) => earlier + state_after(
                index,
                events.drop_last(),
            ).write_state->0.take(count as int),
            _ => earlier,
        }
    }
}

/// The bytes of the message that is being written which are still to be sent
pub open spec fn unsent_bytes(state: SocketState) -> Seq<u8> {
    match state.write_state {
        SocketWriteState::Write(message) => message,
        _ => Seq::empty(),
    }
}

/// The messages that came from the game, in order
pub open spec fn read_messages(events: SocketRun) -> Seq<Seq<u8>>
    decreases events.len(),
{
    if events.len() == 0 {
        Seq::empty()
    } else {
        match events.last() {
            SocketEvent::Read(Some(message)) => read_messages(events.drop_last()).push(message),
            _ => read_messages(events.drop_last()),
        }
    }
}

/// The messages that were handed to the tunnel, each with the index it came from
pub open spec fn forwarded(index: u8, events: SocketRun) -> Seq<(u8, Seq<u8>)>
    decreases events.len(),
{
    if events.len() == 0 {
        Seq::empty()
    } else {
        let earlier = forwarded(index, events.drop_last());
        match socket_step(state_after(index, events.drop_last()), events.last()).effect {
            SocketEffect::Forward(index, message) => earlier.push((index, message)),
            SocketEffect::Nothing => earlier,
        }
    }
}

/// However many bytes the network takes at a time, the bytes that a socket has
/// sent and those it still has to send are those of the messages it received,
/// in order, until it stops
pub proof fn law_socket_sends_what_it_received(index: u8, events: SocketRun)
    requires
        possible(index, events),
        !(state_after(index, events).write_state is Stop),
    ensures
        sent_bytes(index, events) + unsent_bytes(state_after(index, events)) == received_bytes(
            events,
        ),
    decreases events.len(),
{
    if events.len() == 0 {
        assert(Seq::<u8>::empty() + Seq::<u8>::empty() =~= Seq::<u8>::empty());
    } else {
        let earlier = events.drop_last();
        let before = state_after(index, earlier);
        lemma_socket_state(index, earlier);
        law_socket_sends_what_it_received(index, earlier);
        match events.last() {
            SocketEvent::Received(Some(message)) => {
                assert(sent_bytes(index, earlier) + Seq::<u8>::empty() =~= sent_bytes(
                    index,
                    earlier,
                ));
            },
            SocketEvent::Sent(Some(count)) => {
                let message = before.write_state->0;
                assert(message.take(count as int) + message.skip(count as int) =~= message);
                if count == message.len() {
                    assert(message.skip(count as int) =~= Seq::empty());
                }
                assert(sent_bytes(index, events) + unsent_bytes(state_after(index, events))
                    =~= sent_bytes(index, earlier) + message);
            },
            _ => {},
        }
    }
}

/// The states that come up in a run, and the index in them
proof fn lemma_socket_state(index: u8, events: SocketRun)
    requires
        possible(index, events),
    ensures
        state_after(index, events).well_formed(),
        state_after(index, events).index == index,
    decreases events.len(),
{
    if events.len() > 0 {
        lemma_socket_state(index, events.drop_last());
    }
}

/// Every message from the game is handed to the tunnel once and unchanged, in
/// order, with the index of the socket
pub proof fn law_socket_forwards_what_it_read(index: u8, events: SocketRun)
    requires
        possible(index, events),
    ensures
        forwarded(index, events) == read_messages(events).map_values(
            |message: Seq<u8>| (index, message),
        ),
    decreases events.len(),
{
    if events.len() == 0 {
        assert(read_messages(events).map_values(|message: Seq<u8>| (index, message))
            =~= Seq::empty());
    } else {
        let earlier = events.drop_last();
        law_socket_forwards_what_it_read(index, earlier);
        lemma_socket_state(index, earlier);
        if let SocketEvent::Read(Some(message)) = events.last() {
            assert(read_messages(events).map_values(|message: Seq<u8>| (index, message))
                =~= read_messages(earlier).map_values(|message: Seq<u8>| (index, message)).push(
                (index, message),
            ));
        }
    }
}

/// A socket that has just been created runs with its index, waits for a message
/// from the tunnel and writes first
pub proof fn law_socket_starts(index: u8)
    ensures
        SocketState::start(index).well_formed(),
        SocketState::start(index).index == index,
        SocketState::start(index).write_state is Recv,
        SocketState::start(index).half == SocketHalf::Write,
        SocketState::start(index).question() == SocketQuestion::Receive,
{
}

/// What a running socket has to know, and which answers it takes: while it reads a
/// message from the game and then whether the tunnel took it, else what writing
/// waits for. No more bytes can have been sent than there are.
pub proof fn law_socket_takes_answers(
    state: SocketState,
    message: Option<Seq<u8>>,
    count: usize,
    ok: bool,
)
    requires
        state.half != SocketHalf::Stopped,
        !(state.write_state is Stop),
    ensures
        state.takes(SocketEvent::Pending) <==> state.half != SocketHalf::Forward,
        state.takes(SocketEvent::Read(message)) <==> state.half == SocketHalf::Read,
        state.question() == SocketQuestion::Read <==> state.half == SocketHalf::Read,
        state.takes(SocketEvent::Forwarded(ok)) <==> state.half == SocketHalf::Forward,
        state.question() == SocketQuestion::Forward <==> state.half == SocketHalf::Forward,
        ({
            let writes = state.half == SocketHalf::Write;
            &&& state.takes(SocketEvent::Received(message)) <==> writes
                && state.write_state is Recv
            &&& state.question() == SocketQuestion::Receive <==> writes
                && state.write_state is Recv
            &&& state.takes(SocketEvent::Sent(None)) <==> writes && state.write_state is Write
            &&& state.question() == SocketQuestion::Send <==> writes && state.write_state is Write
            &&& state.takes(SocketEvent::Sent(Some(count))) <==> writes
                && state.write_state is Write && count <= state.write_state->Write_0.len()
        }),
        state.well_formed(),
{
}

/// A socket stops exactly when the tunnel is closed, or sending or reading fails,
/// and then nothing is done for it. It is told to stop exactly when it has
/// stopped. Polling ends exactly when there is nothing to read. The index of a
/// socket never changes.
pub proof fn law_socket_stops_on_failure(
    state: SocketState,
    event: SocketEvent<Seq<u8>, Seq<u8>>,
)
    requires
        state.half != SocketHalf::Stopped,
        !(state.write_state is Stop),
        state.takes(event),
    ensures
        ({
            let step = socket_step(state, event);
            let failed = match event {
                SocketEvent::Received(message) => message is None,
                SocketEvent::Sent(count) => count is None,
                SocketEvent::Read(message) => message is None,
                SocketEvent::Forwarded(taken) => !taken,
                SocketEvent::Pending => false,
            };
            &&& step.progress == Progress::Stopped <==> failed
            &&& step.state.half == SocketHalf::Stopped <==> failed
            &&& step.state.write_state is Stop <==> failed && state.half == SocketHalf::Write
            &&& failed ==> step.effect is Nothing
            &&& step.progress == Progress::Pending <==> event is Pending && state.half
                == SocketHalf::Read
            &&& step.state.index == state.index
        }),
{
}

/// A message from the tunnel is sent from its first byte on. The bytes that were
/// sent come off its front, and once none is left the next message is received.
/// None of this stops a socket or turns it to reading.
pub proof fn law_socket_writes_messages(state: SocketState, message: Seq<u8>, count: usize)
    requires
        state.half == SocketHalf::Write,
    ensures
        ({
            let step = socket_step(state, SocketEvent::Received(Some(message)));
            state.write_state is Recv ==> {
                &&& step.state.write_state == SocketWriteState::Write(message)
                &&& step.state.half == SocketHalf::Write
                &&& step.effect is Nothing
                &&& step.progress == Progress::Continue
            }
        }),
        ({
            let step = socket_step(state, SocketEvent::Sent(Some(count)));
            state.write_state == SocketWriteState::Write(message) && count <= message.len() ==> {
                &&& step.state.half == SocketHalf::Write
                &&& step.effect is Nothing
                &&& step.progress == Progress::Continue
                &&& step.state.write_state is Recv <==> count == message.len()
                &&& step.state.write_state is Write <==> count < message.len()
                &&& step.state.write_state is Write ==> step.state.write_state->Write_0
                    == message.subrange(count as int, message.len() as int)
            }
        }),
{
}

/// A message from the game is handed to the tunnel unchanged, with the index of
/// the socket, and once the tunnel took it the next one is read. What is being
/// written stays as it is, and the socket does not stop.
pub proof fn law_socket_reads_messages(state: SocketState, message: Seq<u8>)
    ensures
        ({
            let step = socket_step(state, SocketEvent::Read(Some(message)));
            state.half == SocketHalf::Read ==> {
                &&& step.effect is Forward
                &&& step.effect->Forward_0 == state.index
                &&& step.effect->Forward_1 == message
                &&& step.progress == Progress::Continue
                &&& step.state.half == SocketHalf::Forward
                &&& step.state.write_state == state.write_state
                &&& step.state.index == state.index
            }
        }),
        ({
            let step = socket_step(state, SocketEvent::Forwarded(true));
            state.half == SocketHalf::Forward ==> {
                &&& step.effect is Nothing
                &&& step.progress == Progress::Continue
                &&& step.state.half == SocketHalf::Read
                &&& step.state.write_state == state.write_state
                &&& step.state.index == state.index
            }
        }),
{
}

/// An answer that is not known yet changes nothing of what is being written, and
/// nothing is done. A socket that writes turns to reading, and one that reads ends
/// polling and writes first the next time.
pub proof fn law_socket_waits(state: SocketState)
    requires
        state.half == SocketHalf::Write || state.half == SocketHalf::Read,
    ensures
        ({
            let step = socket_step(state, SocketEvent::Pending);
            &&& step.effect is Nothing
            &&& step.state.write_state == state.write_state
            &&& step.state.index == state.index
            &&& state.half == SocketHalf::Write ==> step.state.half == SocketHalf::Read
                && step.progress == Progress::Continue
            &&& state.half == SocketHalf::Read ==> step.state.half == SocketHalf::Write
                && step.progress == Progress::Pending
        }),
{
}

/// The plain values of answers and effects hold what these hold
pub proof fn law_socket_values<P: Payload>(
    message: P,
    bytes: &[u8],
    index: u8,
    count: Option<usize>,
    ok: bool,
)
    ensures
        event_view(SocketEvent::<P, &[u8]>::Sent(count)) == SocketEvent::<Seq<u8>, Seq<u8>>::Sent(
            count,
        ),
        write_state_view(SocketWriteState::Write(message)) == SocketWriteState::Write(
            message.bytes(),
        ),
        write_state_view(SocketWriteState::<P>::Recv) is Recv,
        write_state_view(SocketWriteState::<P>::Stop) is Stop,
        event_view(SocketEvent::<P, &[u8]>::Received(Some(message))) == SocketEvent::<
            Seq<u8>,
            Seq<u8>,
        >::Received(Some(message.bytes())),
        event_view(SocketEvent::<P, &[u8]>::Received(None)) == SocketEvent::<
            Seq<u8>,
            Seq<u8>,
        >::Received(None),
        event_view(SocketEvent::<P, &[u8]>::Read(Some(bytes))) == SocketEvent::<
            Seq<u8>,
            Seq<u8>,
        >::Read(Some(bytes@)),
        event_view(SocketEvent::<P, &[u8]>::Read(None)) == SocketEvent::<Seq<u8>, Seq<u8>>::Read(
            None,
        ),
        event_view(SocketEvent::<P, &[u8]>::Forwarded(ok)) == SocketEvent::<
            Seq<u8>,
            Seq<u8>,
        >::Forwarded(ok),
        event_view(SocketEvent::<P, &[u8]>::Pending) is Pending,
        effect_view(SocketEffect::Forward(index, message)) == SocketEffect::Forward(
            index,
            message.bytes(),
        ),
        effect_view(SocketEffect::<P>::Nothing) is Nothing,
{
}

/// The bytes of a message are those that its buffer holds
pub proof fn law_payload_bytes(bytes: bytes::Bytes, vec: Vec<u8>)
    ensures
        bytes.bytes() == contents(bytes),
        vec.bytes() == vec@,
{
}

} // verus!
