//! What holds of every run of a tunnel

use vstd::prelude::*;

use super::codec::{MessageView, TunnelMessage};
use super::{
    answers, keep_alive, tunnel_step, write_poll, TunnelEffect, TunnelEvent, TunnelHalf,
    TunnelQuestion, TunnelState, TunnelWriteState, KEEP_ALIVE_INDEX,
};
use crate::buffer::contents;
use crate::servers::{Progress, SOCKET_POOL_SIZE};

verus! {

/// The events that a tunnel was told, one after the other
pub type TunnelRun = Seq<TunnelEvent<MessageView>>;

/// The state of a tunnel after a run of events
pub open spec fn state_after(events: TunnelRun) -> TunnelState
    decreases events.len(),
{
    if events.len() == 0 {
        TunnelState::start()
    } else {
        tunnel_step(state_after(events.drop_last()), events.last()).state
    }
}

/// Whether each event of a run is what the tunnel had to know then
pub open spec fn possible(events: TunnelRun) -> bool
    decreases events.len(),
{
    events.len() > 0 ==> {
        &&& possible(events.drop_last())
        &&& state_after(events.drop_last()).takes(events.last())
    }
}

/// The messages that were to be sent, in order: those from the pool, and the
/// replies to the keep-alive messages that came while none was being written
pub open spec fn accepted(events: TunnelRun) -> Seq<MessageView>
    decreases events.len(),
{
    if events.len() == 0 {
        Seq::empty()
    } else {
        let earlier = accepted(events.drop_last());
        match events.last() {
            TunnelEvent::Received(Some(message)) => earlier.push(message),
            TunnelEvent::Next(Some(message)) => if message.index == KEEP_ALIVE_INDEX
                && state_after(events.drop_last()).write_state is Recv {
                earlier.push(keep_alive())
            } else {
                earlier
            },
            _ => earlier,
        }
    }
}

/// The messages that were written to the connection, in order
pub open spec fn sent(events: TunnelRun) -> Seq<MessageView>
    decreases events.len(),
{
    if events.len() == 0 {
        Seq::empty()
    } else {
        let earlier = sent(events.drop_last());
        match tunnel_step(state_after(events.drop_last()), events.last()).effect {
            TunnelEffect::Send(message) => earlier.push(message),
            _ => earlier,
        }
    }
}

/// The message that waits for the connection
pub open spec fn waiting(state: TunnelState) -> Seq<MessageView> {
    match state.write_state {
        TunnelWriteState::Write(message) => seq![message],
        _ => Seq::empty(),
    }
}

/// The messages that were read from the connection, in order
pub open spec fn read_messages(events: TunnelRun) -> Seq<MessageView>
    decreases events.len(),
{
    if events.len() == 0 {
        Seq::empty()
    } else {
        match events.last() {
            TunnelEvent::Next(Some(message)) => read_messages(events.drop_last()).push(message),
            _ => read_messages(events.drop_last()),
        }
    }
}

/// The messages that were handed to the pool, each with the index of its socket
pub open spec fn delivered(events: TunnelRun) -> Seq<(usize, MessageView)>
    decreases events.len(),
{
    if events.len() == 0 {
        Seq::empty()
    } else {
        let earlier = delivered(events.drop_last());
        match tunnel_step(state_after(events.drop_last()), events.last()).effect {
            TunnelEffect::Deliver(index, message) => earlier.push((index, message)),
            _ => earlier,
        }
    }
}

/// Whether the pool has a socket for the message
pub open spec fn has_socket(message: MessageView) -> bool {
    message.index < SOCKET_POOL_SIZE
}

/// The messages of a sequence that the pool has sockets for, each with the
/// index of its socket
pub open spec fn for_pool(messages: Seq<MessageView>) -> Seq<(usize, MessageView)> {
    messages.filter(|message: MessageView| has_socket(message)).map_values(
        |message: MessageView| (message.index as usize, message),
    )
}

/// Every state that comes up in a run is well formed
pub proof fn law_tunnel_states(events: TunnelRun)
    requires
        possible(events),
    ensures
        state_after(events).well_formed(),
    decreases events.len(),
{
    if events.len() > 0 {
        law_tunnel_states(events.drop_last());
    }
}

/// A keep-alive message that is read while no message is being written is
/// answered with a keep-alive message as soon as the connection is ready, and
/// reading goes on
pub proof fn law_keep_alive_is_answered(state: TunnelState, message: MessageView)
    requires
        state.half == TunnelHalf::Read,
        state.write_state is Recv,
        message.index == KEEP_ALIVE_INDEX,
    ensures
        ({
            let read = tunnel_step(state, TunnelEvent::Next(Some(message)));
            let reply = tunnel_step(read.state, TunnelEvent::Ready(true));
            &&& read.state.takes(TunnelEvent::Ready(true))
            &&& reply.effect == TunnelEffect::Send(keep_alive())
            &&& reply.progress == Progress::Continue
            &&& reply.state.half == TunnelHalf::Read
        }),
{
}

/// Every message from the pool and every reply to a keep-alive message is sent
/// once, unchanged and in order: those that were sent, and the one that may be
/// waiting for the connection, are all that were to be sent. This holds until
/// writing stops.
pub proof fn law_tunnel_sends_in_order(events: TunnelRun)
    requires
        possible(events),
        !(state_after(events).write_state is Stop),
    ensures
        sent(events) + waiting(state_after(events)) == accepted(events),
    decreases events.len(),
{
    if events.len() == 0 {
        assert(Seq::<MessageView>::empty() + Seq::<MessageView>::empty()
            =~= Seq::<MessageView>::empty());
    } else {
        let earlier = events.drop_last();
        let before = state_after(earlier);
        law_tunnel_states(earlier);
        law_tunnel_sends_in_order(earlier);
        assert(sent(events) + waiting(state_after(events)) =~= accepted(events)) by {
            if before.half == TunnelHalf::Read {
                if let TunnelEvent::Next(Some(message)) = events.last() {
                    if message.index == KEEP_ALIVE_INDEX && before.write_state is Recv {
                        assert(waiting(before) =~= Seq::empty());
                        assert(sent(events) =~= accepted(earlier));
                    }
                }
            } else {
                match (before.write_state, events.last()) {
                    (TunnelWriteState::Recv, TunnelEvent::Received(Some(message))) => {
                        assert(sent(events) =~= accepted(earlier));
                    },
                    (TunnelWriteState::Write(message), TunnelEvent::Ready(true)) => {
                        assert(sent(events) =~= sent(earlier).push(message));
                    },
                    _ => {},
                }
            }
        }
    }
}

/// Every message that was read is handed to the socket with its index, once,
/// unchanged and in order, if the pool has one; no other message is
pub proof fn law_tunnel_delivers_in_order(events: TunnelRun)
    requires
        possible(events),
    ensures
        delivered(events) == for_pool(read_messages(events)),
    decreases events.len(),
{
    let keep = |message: MessageView| has_socket(message);
    reveal(Seq::filter);
    if events.len() == 0 {
        assert(for_pool(read_messages(events)) =~= Seq::empty());
    } else {
        let earlier = events.drop_last();
        let before = state_after(earlier);
        law_tunnel_delivers_in_order(earlier);
        if let TunnelEvent::Next(Some(message)) = events.last() {
            let messages = read_messages(events);
            assert(messages.drop_last() =~= read_messages(earlier));
            if has_socket(message) {
                assert(messages.filter(keep) =~= read_messages(earlier).filter(keep).push(message));
                assert(for_pool(messages) =~= for_pool(read_messages(earlier)).push(
                    (message.index as usize, message),
                ));
            } else {
                assert(messages.filter(keep) =~= read_messages(earlier).filter(keep));
            }
        }
    }
}

/// A tunnel that has just been created runs, waits for a message from the pool
/// and writes first
pub proof fn law_tunnel_starts()
    ensures
        TunnelState::start().well_formed(),
        TunnelState::start().write_state is Recv,
        TunnelState::start().half == TunnelHalf::Write,
        TunnelState::start().question() == TunnelQuestion::Receive,
{
}

/// What a running tunnel has to know, and which answers it takes: while it reads
/// a message from the connection, else what writing waits for. That the answer is
/// not known yet is always taken.
pub proof fn law_tunnel_takes_answers(
    state: TunnelState,
    message: Option<MessageView>,
    ok: bool,
)
    requires
        state.half != TunnelHalf::Stopped,
        !(state.write_state is Stop),
    ensures
        state.takes(TunnelEvent::Pending),
        state.half == TunnelHalf::Read ==> {
            &&& state.question() == TunnelQuestion::Next
            &&& state.takes(TunnelEvent::Next(message))
            &&& !state.takes(TunnelEvent::Received(message))
            &&& !state.takes(TunnelEvent::Ready(ok))
            &&& !state.takes(TunnelEvent::Flushed(ok))
        },
        state.half != TunnelHalf::Read ==> {
            &&& !state.takes(TunnelEvent::Next(message))
            &&& state.takes(TunnelEvent::Received(message)) <==> state.write_state is Recv
            &&& state.question() == TunnelQuestion::Receive <==> state.write_state is Recv
            &&& state.takes(TunnelEvent::Ready(ok)) <==> state.write_state is Write
            &&& state.question() == TunnelQuestion::Ready <==> state.write_state is Write
            &&& state.takes(TunnelEvent::Flushed(ok)) <==> state.write_state is Flush
            &&& state.question() == TunnelQuestion::Flush <==> state.write_state is Flush
        },
{
}

/// Which states of a tunnel come up: a reply is only under way while it is
/// written, and only a tunnel that has stopped has stopped writing
pub proof fn law_tunnel_well_formed(state: TunnelState)
    ensures
        state.well_formed() <==> {
            &&& state.half == TunnelHalf::Reply ==> state.write_state is Write
            &&& state.write_state is Stop ==> state.half == TunnelHalf::Stopped
        },
{
}

/// A tunnel stops exactly when the pool is closed or the connection ends or
/// fails, and then nothing is done for it. It is told to stop exactly when it has
/// stopped. Polling ends exactly when there is nothing to read.
pub proof fn law_tunnel_stops_on_failure(state: TunnelState, event: TunnelEvent<MessageView>)
    requires
        state.half != TunnelHalf::Stopped,
        !(state.write_state is Stop),
        state.takes(event),
    ensures
        ({
            let step = tunnel_step(state, event);
            let failed = match event {
                TunnelEvent::Received(message) => message is None,
                TunnelEvent::Ready(ok) => !ok,
                TunnelEvent::Flushed(ok) => !ok,
                TunnelEvent::Next(message) => message is None,
                TunnelEvent::Pending => false,
            };
            &&& step.progress == Progress::Stopped <==> failed
            &&& step.state.half == TunnelHalf::Stopped <==> failed
            &&& step.state.write_state is Stop <==> failed && !(event is Next)
            &&& failed ==> step.effect is Nothing
            &&& step.progress == Progress::Pending <==> event is Pending && state.half
                == TunnelHalf::Read
        }),
{
}

/// A message that is read never stops a tunnel. A keep-alive message, the one
/// with the index 255, starts a reply without contents while nothing is being
/// written, and changes nothing otherwise. Any other message changes nothing, and
/// is handed to the socket with its index if that is one of the four of the pool.
pub proof fn law_tunnel_reads_messages(state: TunnelState, message: MessageView)
    requires
        state.half == TunnelHalf::Read,
    ensures
        ({
            let step = tunnel_step(state, TunnelEvent::Next(Some(message)));
            let replies = message.index == 255 && state.write_state is Recv;
            &&& step.progress == Progress::Continue
            &&& step.effect is Deliver <==> message.index < 4
            &&& step.effect is Nothing <==> message.index >= 4
            &&& step.effect is Deliver ==> step.effect->Deliver_0 == message.index
                && step.effect->Deliver_1 == message
            &&& !replies ==> step.state == state
            &&& replies ==> {
                &&& step.state.half == TunnelHalf::Reply
                &&& step.state.write_state is Write
                &&& step.state.write_state->Write_0.index == 255
                &&& step.state.write_state->Write_0.message.len() == 0
            }
        }),
{
}

/// A message from the pool is waited with until the connection is ready, then
/// sent as it is and flushed, and then the next one is received. None of this
/// stops a tunnel. A tunnel that writes goes on writing, and one that replies
/// goes on reading.
pub proof fn law_tunnel_writes_messages(state: TunnelState, message: MessageView)
    requires
        state.half == TunnelHalf::Write || state.half == TunnelHalf::Reply,
    ensures
        ({
            let step = tunnel_step(state, TunnelEvent::Received(Some(message)));
            state.write_state is Recv ==> {
                &&& step.state.write_state == TunnelWriteState::Write(message)
                &&& step.effect is Nothing
                &&& step.progress == Progress::Continue
                &&& state.half == TunnelHalf::Write <==> step.state.half == TunnelHalf::Write
                &&& state.half == TunnelHalf::Reply <==> step.state.half == TunnelHalf::Read
            }
        }),
        ({
            let step = tunnel_step(state, TunnelEvent::Ready(true));
            state.write_state == TunnelWriteState::Write(message) ==> {
                &&& step.state.write_state is Flush
                &&& step.effect == TunnelEffect::Send(message)
                &&& step.progress == Progress::Continue
                &&& state.half == TunnelHalf::Write <==> step.state.half == TunnelHalf::Write
                &&& state.half == TunnelHalf::Reply <==> step.state.half == TunnelHalf::Read
            }
        }),
        ({
            let step = tunnel_step(state, TunnelEvent::Flushed(true));
            state.write_state is Flush ==> {
                &&& step.state.write_state is Recv
                &&& step.effect is Nothing
                &&& step.progress == Progress::Continue
                &&& state.half == TunnelHalf::Write <==> step.state.half == TunnelHalf::Write
                &&& state.half == TunnelHalf::Reply <==> step.state.half == TunnelHalf::Read
            }
        }),
{
}

/// An answer that is not known yet changes nothing of what is being written, and
/// nothing is done. A tunnel that writes turns to reading, and one that reads
/// ends polling and writes first the next time.
pub proof fn law_tunnel_waits(state: TunnelState)
    requires
        state.half != TunnelHalf::Stopped,
        !(state.write_state is Stop),
    ensures
        ({
            let step = tunnel_step(state, TunnelEvent::Pending);
            &&& step.state.write_state == state.write_state
            &&& step.effect is Nothing
            &&& state.half == TunnelHalf::Read ==> step.state.half == TunnelHalf::Write
                && step.progress == Progress::Pending
            &&& state.half != TunnelHalf::Read ==> step.state.half == TunnelHalf::Read
                && step.progress == Progress::Continue
        }),
{
}

/// The writing part by itself goes from receiving to writing to flushing and
/// back. A poll is over exactly when the answer is known, a message is sent
/// exactly when the connection is ready for it, and only failures stop it.
pub proof fn law_write_poll(
    state: TunnelWriteState<MessageView>,
    event: TunnelEvent<MessageView>,
)
    requires
        !(state is Stop),
        match event {
            TunnelEvent::Pending => true,
            TunnelEvent::Received(_) => state is Recv,
            TunnelEvent::Ready(_) => state is Write,
            TunnelEvent::Flushed(_) => state is Flush,
            TunnelEvent::Next(_) => false,
        },
    ensures
        answers(state.question(), event),
        ({
            let poll = write_poll(state, event);
            &&& poll.ready <==> !(event is Pending)
            &&& event is Pending ==> poll.state == state
            &&& poll.state is Stop <==> (match event {
                TunnelEvent::Received(message) => message is None,
                TunnelEvent::Ready(ok) => !ok,
                TunnelEvent::Flushed(ok) => !ok,
                _ => false,
            })
            &&& poll.effect is Send <==> event == TunnelEvent::<MessageView>::Ready(true)
            &&& poll.effect is Send ==> state == TunnelWriteState::Write(poll.effect->Send_0)
            &&& !(poll.effect is Send) ==> poll.effect is Nothing
            &&& event is Received && !(poll.state is Stop) ==> event->Received_0 is Some
                && poll.state == TunnelWriteState::Write(event->Received_0->0)
            &&& event is Ready && !(poll.state is Stop) ==> poll.state is Flush
            &&& event is Flushed && !(poll.state is Stop) ==> poll.state is Recv
        }),
{
}

/// The plain values of messages, answers and effects hold what these hold
pub proof fn law_tunnel_values(message: TunnelMessage, index: usize, ok: bool)
    ensures
        message@.index == message.index,
        message@.message == contents(message.message),
        TunnelWriteState::Write(message)@ == TunnelWriteState::Write(message@),
        TunnelWriteState::<TunnelMessage>::Recv@ is Recv,
        TunnelWriteState::<TunnelMessage>::Flush@ is Flush,
        TunnelWriteState::<TunnelMessage>::Stop@ is Stop,
        TunnelEvent::Received(Some(message))@ == TunnelEvent::Received(Some(message@)),
        TunnelEvent::Next(Some(message))@ == TunnelEvent::Next(Some(message@)),
        TunnelEvent::<TunnelMessage>::Received(None)@ == TunnelEvent::<MessageView>::Received(None),
        TunnelEvent::<TunnelMessage>::Next(None)@ == TunnelEvent::<MessageView>::Next(None),
        TunnelEvent::<TunnelMessage>::Ready(ok)@ == TunnelEvent::<MessageView>::Ready(ok),
        TunnelEvent::<TunnelMessage>::Flushed(ok)@ == TunnelEvent::<MessageView>::Flushed(ok),
        TunnelEvent::<TunnelMessage>::Pending@ is Pending,
        TunnelEffect::Send(message)@ == TunnelEffect::Send(message@),
        TunnelEffect::Deliver(index, message)@ == TunnelEffect::Deliver(index, message@),
        TunnelEffect::<TunnelMessage>::Nothing@ is Nothing,
{
}

} // verus!
