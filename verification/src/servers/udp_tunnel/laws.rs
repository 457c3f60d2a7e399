//! What holds of every run of a UDP tunnel

use vstd::prelude::*;
use vstd::utf8::encode_utf8;

use super::packet::{packet_bytes, packet_in, UdpMessage, UdpMessageView};
use super::{
    tunnel_step, write_poll, TunnelEffect, TunnelEvent, TunnelHalf, TunnelQuestion, TunnelState,
    TunnelWriteState,
};
use crate::servers::{Progress, SOCKET_POOL_SIZE};

verus! {

/// The events that a tunnel was told, one after the other
pub type TunnelRun = Seq<TunnelEvent<UdpMessageView, Seq<u8>>>;

/// The state of the tunnel with the ID after a run of events
pub open spec fn state_after(tunnel_id: u32, events: TunnelRun) -> TunnelState
    decreases events.len(),
{
    if events.len() == 0 {
        TunnelState::start(tunnel_id)
    } else {
        tunnel_step(state_after(tunnel_id, events.drop_last()), events.last()).state
    }
}

/// Whether each event of a run is what the tunnel had to know then
pub open spec fn possible(tunnel_id: u32, events: TunnelRun) -> bool
    decreases events.len(),
{
    events.len() > 0 ==> {
        &&& possible(tunnel_id, events.drop_last())
        &&& state_after(tunnel_id, events.drop_last()).takes(events.last())
    }
}

/// The message of the packet that an event brings
pub open spec fn message_of(event: TunnelEvent<UdpMessageView, Seq<u8>>) -> Option<
    UdpMessageView,
> {
    match event {
        TunnelEvent::Datagram(Some(bytes)) => match packet_in(bytes) {
            Ok(packet) => Some(packet.message),
            Err(_) => None,
        },
        _ => None,
    }
}

/// The messages that were to be sent, in order: those from the pool, and a reply
/// to each keep-alive message that came while none was due
pub open spec fn accepted(tunnel_id: u32, events: TunnelRun) -> Seq<UdpMessageView>
    decreases events.len(),
{
    if events.len() == 0 {
        Seq::empty()
    } else {
        let earlier = accepted(tunnel_id, events.drop_last());
        match (events.last(), message_of(events.last())) {
            (TunnelEvent::Received(Some(message)), _) => earlier.push(message),
            (_, Some(UdpMessageView::KeepAlive)) => if state_after(
                tunnel_id,
                events.drop_last(),
            ).reply_due {
                earlier
            } else {
                earlier.push(UdpMessageView::KeepAlive)
            },
            _ => earlier,
        }
    }
}

/// The messages whose packets were sent, in order
pub open spec fn sent(tunnel_id: u32, events: TunnelRun) -> Seq<UdpMessageView>
    decreases events.len(),
{
    if events.len() == 0 {
        Seq::empty()
    } else {
        let earlier = sent(tunnel_id, events.drop_last());
        match (state_after(tunnel_id, events.drop_last()).write_state, events.last()) {
            (TunnelWriteState::Send(message), TunnelEvent::Sent) => earlier.push(message),
            _ => earlier,
        }
    }
}

/// The messages that are still to be sent, in order: the one that waits for the
/// socket or is being sent, and the reply that is due behind it
pub open spec fn unsent(state: TunnelState) -> Seq<UdpMessageView> {
    let message = match state.write_state {
        TunnelWriteState::Write(message) => seq![message],
        TunnelWriteState::Send(message) => seq![message],
        _ => Seq::empty(),
    };
    if state.reply_due {
        message.push(UdpMessageView::KeepAlive)
    } else {
        message
    }
}

/// The messages of the packets that were read, in order
pub open spec fn read_messages(events: TunnelRun) -> Seq<UdpMessageView>
    decreases events.len(),
{
    if events.len() == 0 {
        Seq::empty()
    } else {
        match message_of(events.last()) {
            Some(message) => read_messages(events.drop_last()).push(message),
            None => read_messages(events.drop_last()),
        }
    }
}

/// The messages that were handed to the pool, each with the index of its socket
pub open spec fn delivered(tunnel_id: u32, events: TunnelRun) -> Seq<(usize, Seq<u8>)>
    decreases events.len(),
{
    if events.len() == 0 {
        Seq::empty()
    } else {
        let earlier = delivered(tunnel_id, events.drop_last());
        match tunnel_step(state_after(tunnel_id, events.drop_last()), events.last()).effect {
            TunnelEffect::Deliver(index, message) => earlier.push((index, message)),
            _ => earlier,
        }
    }
}

/// Whether the message is a forwarded one that the pool has a socket for
pub open spec fn has_socket(message: UdpMessageView) -> bool {
    message matches UdpMessageView::Forward { index, .. } && index < SOCKET_POOL_SIZE
}

/// The forwarded messages of a sequence that the pool has sockets for, each
/// with the index of its socket
pub open spec fn for_pool(messages: Seq<UdpMessageView>) -> Seq<(usize, Seq<u8>)> {
    messages.filter(|message: UdpMessageView| has_socket(message)).map_values(
        |message: UdpMessageView|
            (message->Forward_index as usize, message->Forward_message),
    )
}

/// Every state that comes up in a run is well formed and keeps the ID of the
/// tunnel
pub proof fn law_tunnel_states(tunnel_id: u32, events: TunnelRun)
    requires
        possible(tunnel_id, events),
    ensures
        state_after(tunnel_id, events).well_formed(),
        state_after(tunnel_id, events).tunnel_id == tunnel_id,
    decreases events.len(),
{
    if events.len() > 0 {
        law_tunnel_states(tunnel_id, events.drop_last());
    }
}

/// What is handed to the socket is the packet of the message that is then being
/// sent
pub proof fn law_packet_is_of_message(
    state: TunnelState,
    event: TunnelEvent<UdpMessageView, Seq<u8>>,
)
    requires
        state.takes(event),
        tunnel_step(state, event).effect is Send,
    ensures
        ({
            let step = tunnel_step(state, event);
            &&& step.state.write_state is Send
            &&& step.effect == TunnelEffect::Send(
                packet_bytes(state.tunnel_id, step.state.write_state->Send_0),
            )
        }),
{
}

/// A message whose packet could not be sent yet is not lost: it waits for the
/// socket, and the same packet is handed over once the socket is writable
pub proof fn law_pending_message_is_kept(state: TunnelState)
    requires
        state.well_formed(),
        state.write_state.sendable(),
        state.half == TunnelHalf::Write,
    ensures
        ({
            let handed = tunnel_step(state, TunnelEvent::SendReady(true));
            let pending = tunnel_step(handed.state, TunnelEvent::Pending);
            let parked = tunnel_step(pending.state, TunnelEvent::Pending);
            &&& pending.state.write_state == state.write_state
            &&& parked.progress == Progress::Pending
            &&& parked.state == state
        }),
{
}

/// A keep-alive message that is read while no message is being written is
/// answered with a keep-alive packet of the tunnel as soon as the socket is
/// writable, and reading goes on
pub proof fn law_keep_alive_is_answered(state: TunnelState, bytes: Seq<u8>)
    requires
        state.well_formed(),
        state.half == TunnelHalf::Datagram,
        state.write_state is Recv,
        packet_in(bytes) is Ok,
        packet_in(bytes)->Ok_0.message is KeepAlive,
    ensures
        ({
            let read = tunnel_step(state, TunnelEvent::Datagram(Some(bytes)));
            let reply = tunnel_step(read.state, TunnelEvent::SendReady(true));
            let done = tunnel_step(reply.state, TunnelEvent::Sent);
            &&& read.state.takes(TunnelEvent::SendReady(true))
            &&& reply.effect == TunnelEffect::Send(
                packet_bytes(state.tunnel_id, UdpMessageView::KeepAlive),
            )
            &&& reply.state.takes(TunnelEvent::Sent)
            &&& done.progress == Progress::Continue
            &&& done.state.half == TunnelHalf::Read
        }),
{
}

/// A keep-alive message that is read while another message waits for the socket
/// leaves that message as it is, and is answered right behind it
pub proof fn law_keep_alive_waits_its_turn(state: TunnelState, bytes: Seq<u8>)
    requires
        state.well_formed(),
        state.half == TunnelHalf::Datagram,
        state.write_state.sendable(),
        packet_in(bytes) is Ok,
        packet_in(bytes)->Ok_0.message is KeepAlive,
    ensures
        ({
            let read = tunnel_step(state, TunnelEvent::Datagram(Some(bytes)));
            let parked = tunnel_step(read.state, TunnelEvent::Pending);
            let handed = tunnel_step(parked.state, TunnelEvent::SendReady(true));
            let done = tunnel_step(handed.state, TunnelEvent::Sent);
            let reply = tunnel_step(done.state, TunnelEvent::SendReady(true));
            &&& read.state.write_state == state.write_state
            &&& parked.state.takes(TunnelEvent::SendReady(true))
            &&& handed.effect == TunnelEffect::Send(
                packet_bytes(state.tunnel_id, state.write_state->Write_0),
            )
            &&& handed.state.takes(TunnelEvent::Sent)
            &&& done.state.takes(TunnelEvent::SendReady(true))
            &&& reply.effect == TunnelEffect::Send(
                packet_bytes(state.tunnel_id, UdpMessageView::KeepAlive),
            )
        }),
{
}

/// What a step does to the messages that are still to be sent: one from the pool
/// and a reply join them at the end, one that was sent leaves them at the front
#[verifier::spinoff_prover]
proof fn lemma_unsent(state: TunnelState, event: TunnelEvent<UdpMessageView, Seq<u8>>)
    requires
        state.well_formed(),
        state.takes(event),
        !(tunnel_step(state, event).state.write_state is Stop),
    ensures
        ({
            let after = unsent(tunnel_step(state, event).state);
            let before = unsent(state);
            match event {
                TunnelEvent::Received(Some(message)) => after == before.push(message),
                TunnelEvent::Sent => before == seq![state.write_state->Send_0] + after,
                _ => if message_of(event) == Some(UdpMessageView::KeepAlive) && !state.reply_due {
                    after == before.push(UdpMessageView::KeepAlive)
                } else {
                    after == before
                },
            }
        }),
{
    let after = unsent(tunnel_step(state, event).state);
    let before = unsent(state);
    match event {
        TunnelEvent::Received(Some(message)) => {
            assert(after =~= before.push(message));
        },
        TunnelEvent::Sent => {
            assert(before =~= seq![state.write_state->Send_0] + after);
        },
        _ => {
            if message_of(event) == Some(UdpMessageView::KeepAlive) && !state.reply_due {
                assert(after =~= before.push(UdpMessageView::KeepAlive));
            } else {
                assert(after =~= before);
            }
        },
    }
}

/// Every message from the pool and every reply to a keep-alive message is sent
/// once, unchanged and in order: those that were sent, and those that wait for
/// the socket or are being sent, are all that were to be sent. This holds until
/// writing stops.
#[verifier::spinoff_prover]
pub proof fn law_tunnel_sends_in_order(tunnel_id: u32, events: TunnelRun)
    requires
        possible(tunnel_id, events),
        !(state_after(tunnel_id, events).write_state is Stop),
    ensures
        sent(tunnel_id, events) + unsent(state_after(tunnel_id, events)) == accepted(
            tunnel_id,
            events,
        ),
    decreases events.len(),
{
    let after = state_after(tunnel_id, events);
    if events.len() == 0 {
        assert(sent(tunnel_id, events) + unsent(after) =~= accepted(tunnel_id, events));
    } else {
        let earlier = events.drop_last();
        let before = state_after(tunnel_id, earlier);
        law_tunnel_states(tunnel_id, earlier);
        law_tunnel_sends_in_order(tunnel_id, earlier);
        lemma_unsent(before, events.last());
        assert(sent(tunnel_id, events) + unsent(after) =~= accepted(tunnel_id, events));
    }
}

/// Every forwarded message that was read is handed to the socket with its
/// index, once, unchanged and in order, if the pool has one; no other message
/// is
pub proof fn law_tunnel_delivers_in_order(tunnel_id: u32, events: TunnelRun)
    requires
        possible(tunnel_id, events),
    ensures
        delivered(tunnel_id, events) == for_pool(read_messages(events)),
    decreases events.len(),
{
    let keep = |message: UdpMessageView| has_socket(message);
    reveal(Seq::filter);
    if events.len() == 0 {
        assert(for_pool(read_messages(events)) =~= Seq::empty());
    } else {
        let earlier = events.drop_last();
        law_tunnel_delivers_in_order(tunnel_id, earlier);
        if let Some(message) = message_of(events.last()) {
            let messages = read_messages(events);
            assert(messages.drop_last() =~= read_messages(earlier));
            if has_socket(message) {
                assert(messages.filter(keep) =~= read_messages(earlier).filter(keep).push(message));
                assert(for_pool(messages) =~= for_pool(read_messages(earlier)).push(
                    (message->Forward_index as usize, message->Forward_message),
                ));
            } else {
                assert(messages.filter(keep) =~= read_messages(earlier).filter(keep));
            }
        }
    }
}

/// A tunnel that has just been created runs with its ID, waits for a message from
/// the pool and writes first
pub proof fn law_tunnel_starts(tunnel_id: u32)
    ensures
        TunnelState::start(tunnel_id).well_formed(),
        TunnelState::start(tunnel_id).tunnel_id == tunnel_id,
        TunnelState::start(tunnel_id).write_state is Recv,
        !TunnelState::start(tunnel_id).reply_due,
        TunnelState::start(tunnel_id).half == TunnelHalf::Write,
        TunnelState::start(tunnel_id).question() == TunnelQuestion::Receive,
{
}

/// What a running tunnel has to know, and which answers it takes: while it reads,
/// whether there is a packet and then the packet, else what writing waits for.
/// That the answer is not known yet is always taken. The socket can be told to be
/// writable for every message that a packet can carry.
pub proof fn law_tunnel_takes_answers(
    state: TunnelState,
    message: Option<UdpMessageView>,
    bytes: Option<Seq<u8>>,
    ok: bool,
)
    requires
        state.half != TunnelHalf::Stopped,
        !(state.write_state is Stop),
    ensures
        state.takes(TunnelEvent::Pending),
        state.takes(TunnelEvent::RecvReady(ok)) <==> state.half == TunnelHalf::Read,
        state.half == TunnelHalf::Read <==> state.question() == TunnelQuestion::RecvReady,
        state.takes(TunnelEvent::Datagram(bytes)) <==> state.half == TunnelHalf::Datagram,
        state.half == TunnelHalf::Datagram <==> state.question() == TunnelQuestion::Recv,
        ({
            let writes = state.half == TunnelHalf::Write || state.half == TunnelHalf::Reply;
            &&& state.takes(TunnelEvent::Received(message)) <==> writes && state.write_state is Recv
            &&& state.question() == TunnelQuestion::Receive <==> writes && state.write_state is Recv
            &&& state.takes(TunnelEvent::SendReady(false)) <==> writes
                && state.write_state is Write
            &&& state.question() == TunnelQuestion::SendReady <==> writes
                && state.write_state is Write
            &&& state.takes(TunnelEvent::SendReady(true)) <==> writes && state.write_state is Write
                && carried_length(state.write_state->Write_0) < 0xFFFF
            &&& state.takes(TunnelEvent::Sent) <==> writes && state.write_state is Send
            &&& state.question() == TunnelQuestion::Send <==> writes && state.write_state is Send
        }),
        state.write_state.sendable() <==> state.write_state is Write && carried_length(
            state.write_state->Write_0,
        ) < 0xFFFF,
{
}

/// The number of bytes that a message carries behind a length
pub open spec fn carried_length(message: UdpMessageView) -> nat {
    match message {
        UdpMessageView::Initiate { association_token } => encode_utf8(association_token).len(),
        UdpMessageView::Forward { message, .. } => message.len(),
        _ => 0,
    }
}

/// Which states of a tunnel come up: a packet is only being sent while the tunnel
/// writes or replies, a reply is only under way while it is written, one is only
/// due behind a message, and only a tunnel that has stopped has stopped writing
pub proof fn law_tunnel_well_formed(state: TunnelState)
    ensures
        state.well_formed() <==> {
            &&& state.half == TunnelHalf::Reply ==> state.write_state is Write
                || state.write_state is Send
            &&& state.write_state is Send ==> state.half == TunnelHalf::Write || state.half
                == TunnelHalf::Reply
            &&& state.reply_due ==> !(state.write_state is Recv)
            &&& state.write_state is Stop ==> state.half == TunnelHalf::Stopped
        },
{
}

/// A tunnel stops exactly when the pool is closed, the socket fails or a packet is
/// malformed, and then nothing is done for it. It is told to stop exactly when it
/// has stopped. Polling ends exactly when there is nothing to read. The ID of a
/// tunnel never changes.
pub proof fn law_tunnel_stops_on_failure(
    state: TunnelState,
    event: TunnelEvent<UdpMessageView, Seq<u8>>,
)
    requires
        state.half != TunnelHalf::Stopped,
        !(state.write_state is Stop),
        state.takes(event),
    ensures
        ({
            let step = tunnel_step(state, event);
            let failed = match event {
                TunnelEvent::Received(message) => message is None,
                TunnelEvent::SendReady(ok) => !ok,
                TunnelEvent::RecvReady(ok) => !ok,
                TunnelEvent::Datagram(bytes) => bytes is None || packet_in(bytes->0) is Err,
                TunnelEvent::Pending => false,
                TunnelEvent::Sent => false,
            };
            let reads = state.half == TunnelHalf::Read || state.half == TunnelHalf::Datagram;
            &&& step.progress == Progress::Stopped <==> failed
            &&& step.state.half == TunnelHalf::Stopped <==> failed
            &&& step.state.write_state is Stop <==> failed && !reads
            &&& failed ==> step.effect is Nothing
            &&& step.progress == Progress::Pending <==> event is Pending && reads
            &&& step.state.tunnel_id == state.tunnel_id
        }),
{
}

/// A packet that is well formed never stops a tunnel, whatever its version and
/// tunnel. A forwarded message is handed to the socket with its index, unchanged,
/// if that is one of the four of the pool, and nothing else is. Only a keep-alive
/// message changes what is to be sent: it starts a reply while nothing is being
/// written, and is else answered behind that.
pub proof fn law_tunnel_reads_packets(state: TunnelState, bytes: Seq<u8>)
    requires
        state.half == TunnelHalf::Datagram,
        packet_in(bytes) is Ok,
    ensures
        ({
            let message = packet_in(bytes)->Ok_0.message;
            let step = tunnel_step(state, TunnelEvent::Datagram(Some(bytes)));
            let delivers = message is Forward && message->Forward_index < 4;
            &&& step.progress == Progress::Continue
            &&& step.state.tunnel_id == state.tunnel_id
            &&& step.effect is Deliver <==> delivers
            &&& step.effect is Nothing <==> !delivers
            &&& delivers ==> step.effect->Deliver_0 == message->Forward_index
                && step.effect->Deliver_1 == message->Forward_message
            &&& !(message is KeepAlive) ==> {
                &&& step.state.half == TunnelHalf::Read
                &&& step.state.write_state == state.write_state
                &&& step.state.reply_due == state.reply_due
            }
            &&& message is KeepAlive && state.write_state is Recv ==> {
                &&& step.state.half == TunnelHalf::Reply
                &&& step.state.write_state is Write
                &&& step.state.write_state->Write_0 is KeepAlive
                &&& step.state.reply_due == state.reply_due
            }
            &&& message is KeepAlive && !(state.write_state is Recv) ==> {
                &&& step.state.half == TunnelHalf::Read
                &&& step.state.write_state == state.write_state
                &&& step.state.reply_due
            }
        }),
{
}

/// A packet that is there is read next, and nothing else changes
pub proof fn law_tunnel_reads_next(state: TunnelState)
    requires
        state.half == TunnelHalf::Read,
    ensures
        ({
            let step = tunnel_step(state, TunnelEvent::RecvReady(true));
            &&& step.progress == Progress::Continue
            &&& step.effect is Nothing
            &&& step.state.half == TunnelHalf::Datagram
            &&& step.state.write_state == state.write_state
            &&& step.state.reply_due == state.reply_due
            &&& step.state.tunnel_id == state.tunnel_id
        }),
{
}

/// A message from the pool is waited with until the socket is writable, then
/// handed over in a packet of the tunnel, and once that was sent a reply that is
/// due is written, else the next message is received. None of this stops a tunnel.
/// A tunnel that writes goes on writing, and one that replies goes on reading once
/// the reply was sent.
pub proof fn law_tunnel_writes_messages(state: TunnelState, message: UdpMessageView)
    requires
        state.half == TunnelHalf::Write || state.half == TunnelHalf::Reply,
    ensures
        ({
            let step = tunnel_step(state, TunnelEvent::Received(Some(message)));
            state.write_state is Recv && !state.reply_due ==> {
                &&& step.state.write_state == TunnelWriteState::Write(message)
                &&& !step.state.reply_due
                &&& step.effect is Nothing
                &&& step.progress == Progress::Continue
                &&& state.half == TunnelHalf::Write ==> step.state.half == TunnelHalf::Write
            }
        }),
        ({
            let step = tunnel_step(state, TunnelEvent::SendReady(true));
            state.write_state == TunnelWriteState::Write(message) ==> {
                &&& step.state.write_state == TunnelWriteState::Send(message)
                &&& step.state.reply_due == state.reply_due
                &&& step.effect == TunnelEffect::Send(packet_bytes(state.tunnel_id, message))
                &&& step.progress == Progress::Continue
                &&& step.state.half == state.half
            }
        }),
        ({
            let step = tunnel_step(state, TunnelEvent::Sent);
            state.write_state == TunnelWriteState::Send(message) ==> {
                &&& !state.reply_due ==> step.state.write_state is Recv
                &&& state.reply_due ==> step.state.write_state is Write
                    && step.state.write_state->Write_0 is KeepAlive
                &&& !step.state.reply_due
                &&& step.effect is Nothing
                &&& step.progress == Progress::Continue
                &&& state.half == TunnelHalf::Write ==> step.state.half == TunnelHalf::Write
                &&& state.half == TunnelHalf::Reply ==> step.state.half == TunnelHalf::Read
            }
        }),
{
}

/// An answer that is not known yet loses no message and no reply, and nothing is
/// done. A message that was being sent waits for the socket again, and any other
/// stays as it is. A tunnel that writes turns to reading, and one that reads ends
/// polling and writes first the next time.
pub proof fn law_tunnel_waits(state: TunnelState)
    requires
        state.well_formed(),
        state.half != TunnelHalf::Stopped,
    ensures
        ({
            let step = tunnel_step(state, TunnelEvent::Pending);
            let reads = state.half == TunnelHalf::Read || state.half == TunnelHalf::Datagram;
            &&& step.effect is Nothing
            &&& step.state.reply_due == state.reply_due
            &&& state.write_state is Send ==> step.state.write_state == TunnelWriteState::Write(
                state.write_state->Send_0,
            )
            &&& !(state.write_state is Send) ==> step.state.write_state == state.write_state
            &&& reads ==> step.state.half == TunnelHalf::Write && step.progress
                == Progress::Pending
            &&& !reads ==> step.state.half == TunnelHalf::Read && step.progress
                == Progress::Continue
        }),
{
}

/// The writing part by itself goes from receiving to writing to sending and back.
/// A poll is over exactly when the answer is known, a packet of the tunnel with the
/// message is handed over exactly when the socket is writable, and only failures
/// stop it.
pub proof fn law_write_poll(
    tunnel_id: u32,
    state: TunnelWriteState<UdpMessageView>,
    event: TunnelEvent<UdpMessageView, Seq<u8>>,
)
    requires
        !(state is Stop),
        match event {
            TunnelEvent::Pending => true,
            TunnelEvent::Received(_) => state is Recv,
            TunnelEvent::SendReady(ok) => state is Write && (ok ==> carried_length(state->Write_0)
                < 0xFFFF),
            TunnelEvent::Sent => state is Send,
            _ => false,
        },
    ensures
        state.takes(event),
        ({
            let poll = write_poll(tunnel_id, state, event);
            &&& poll.ready <==> !(event is Pending)
            &&& event is Pending && state is Send ==> poll.state == TunnelWriteState::Write(
                state->Send_0,
            )
            &&& event is Pending && !(state is Send) ==> poll.state == state
            &&& poll.state is Stop <==> (match event {
                TunnelEvent::Received(message) => message is None,
                TunnelEvent::SendReady(ok) => !ok,
                _ => false,
            })
            &&& poll.effect is Send <==> event is SendReady && event->SendReady_0
            &&& poll.effect is Send ==> poll.effect->Send_0 == packet_bytes(
                tunnel_id,
                state->Write_0,
            ) && poll.state == TunnelWriteState::Send(state->Write_0)
            &&& !(poll.effect is Send) ==> poll.effect is Nothing
            &&& event is Received && !(poll.state is Stop) ==> event->Received_0 is Some
                && poll.state == TunnelWriteState::Write(event->Received_0->0)
            &&& event is Sent ==> poll.state is Recv
        }),
{
}

/// The plain values of messages, answers and effects hold what these hold
pub proof fn law_tunnel_values(message: UdpMessage, bytes: &[u8], vec: Vec<u8>, index: usize, ok: bool)
    ensures
        TunnelWriteState::Write(message)@ == TunnelWriteState::Write(message@),
        TunnelWriteState::Send(message)@ == TunnelWriteState::Send(message@),
        TunnelWriteState::<UdpMessage>::Recv@ is Recv,
        TunnelWriteState::<UdpMessage>::Stop@ is Stop,
        TunnelEvent::<UdpMessage, &[u8]>::Received(Some(message))@ == TunnelEvent::<
            UdpMessageView,
            Seq<u8>,
        >::Received(Some(message@)),
        TunnelEvent::<UdpMessage, &[u8]>::Received(None)@ == TunnelEvent::<
            UdpMessageView,
            Seq<u8>,
        >::Received(None),
        TunnelEvent::<UdpMessage, &[u8]>::Datagram(Some(bytes))@ == TunnelEvent::<
            UdpMessageView,
            Seq<u8>,
        >::Datagram(Some(bytes@)),
        TunnelEvent::<UdpMessage, &[u8]>::Datagram(None)@ == TunnelEvent::<
            UdpMessageView,
            Seq<u8>,
        >::Datagram(None),
        TunnelEvent::<UdpMessage, &[u8]>::SendReady(ok)@ == TunnelEvent::<
            UdpMessageView,
            Seq<u8>,
        >::SendReady(ok),
        TunnelEvent::<UdpMessage, &[u8]>::RecvReady(ok)@ == TunnelEvent::<
            UdpMessageView,
            Seq<u8>,
        >::RecvReady(ok),
        TunnelEvent::<UdpMessage, &[u8]>::Sent@ is Sent,
        TunnelEvent::<UdpMessage, &[u8]>::Pending@ is Pending,
        TunnelEffect::Send(vec)@ == TunnelEffect::Send(vec@),
        TunnelEffect::Deliver(index, vec)@ == TunnelEffect::Deliver(index, vec@),
        TunnelEffect::<Vec<u8>>::Nothing@ is Nothing,
{
}

} // verus!
