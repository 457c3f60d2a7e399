//! Exchanging the association token for the ID of a UDP tunnel

use vstd::arithmetic::power2::{lemma_pow2_unfold, pow2};
use vstd::prelude::*;
use vstd::utf8::encode_utf8;

use super::packet::{
    deserialize_message, packet_bytes, packet_in, serialize_message, MessageError, UdpMessage,
    UdpMessageView, UdpPacket, UdpPacketView, NO_TUNNEL_ID,
};

verus! {

/// Maximum number of times to try and handshake
pub const MAX_HANDSHAKE_ATTEMPTS: u8 = 5;

/// Seconds to elapse without a response before the handshake is considered timed out
pub const HANDSHAKE_TIMEOUT: u64 = 5;

/// Seconds to wait after the first failed handshake
pub const FIRST_RETRY_DELAY: u64 = 5;

/// Errors that can occur while creating a UDP tunnel, with the kind of error
/// that the network reports
#[derive(Debug)]
pub enum UdpTunnelError<E> {
    /// The base URL of the server is not compatible with the UDP tunnel
    /// variant (It missing the host portion?)
    HostIncompatible,
    /// Server version does not support the UDP tunnel or the server has
    /// explicitly disabled the tunnel
    ServerIncompatible,
    /// Failed to bind the tunnel socket
    Bind(E),
    /// Failed to "connect" to the target server, happens when the host
    /// is unreachable or DNS resolution fails
    Connect(E),
    /// Reached timeout while attempting to complete handshake
    HandshakeTimeout,
    /// Some generic IO error occurred while reading or writing
    GenericIo(E),
    /// Received malformed packet when creating the tunnel
    MalformedPacket(MessageError),
    /// Got an unexpected packet during the handshake process
    UnexpectedPacket,
    /// Failed to allocate the local socket pool
    AllocateSocketPool(E),
}

/// Provides the packet that asks the server to initiate a tunnel
///
/// ## Arguments
/// * `association` - The client association token
pub fn initiate_packet(association: &str) -> (buffer: Vec<u8>)
    requires
        encode_utf8(association@).len() < 0xFFFF,
    ensures
        buffer@ == packet_bytes(
            NO_TUNNEL_ID,
            UdpMessageView::Initiate { association_token: association@ },
        ),
{
    serialize_message(
        NO_TUNNEL_ID,
        &UdpMessage::Initiate { association_token: association.to_string() },
    )
}

/// What the answer to the initiate packet means: the ID of the tunnel if it is
/// the initiated message, an error if it is anything else
pub open spec fn initiated<E>(packet: Result<UdpPacketView, MessageError>) -> Result<
    u32,
    UdpTunnelError<E>,
> {
    match packet {
        Ok(packet) => match packet.message {
            UdpMessageView::Initiated { tunnel_id } => Ok(tunnel_id),
            _ => Err(UdpTunnelError::UnexpectedPacket),
        },
        Err(error) => Err(UdpTunnelError::MalformedPacket(error)),
    }
}

/// The value of a decoded packet
pub open spec fn packet_view(packet: Result<UdpPacket, MessageError>) -> Result<
    UdpPacketView,
    MessageError,
> {
    match packet {
        Ok(packet) => Ok(packet@),
        Err(error) => Err(error),
    }
}

/// Provides the ID of the tunnel that a decoded answer to the initiate packet
/// reports
pub fn initiated_tunnel<E>(packet: Result<UdpPacket, MessageError>) -> (tunnel_id: Result<
    u32,
    UdpTunnelError<E>,
>)
    ensures
        tunnel_id == initiated::<E>(packet_view(packet)),
{
    match packet {
        Ok(packet) => match packet.message {
            // Got the initiation message
            UdpMessage::Initiated { tunnel_id } => Ok(tunnel_id),
            // Not expecting any other packets in this state
            _ => Err(UdpTunnelError::UnexpectedPacket),
        },
        Err(error) => Err(UdpTunnelError::MalformedPacket(error)),
    }
}

/// Provides the ID of the tunnel that the answer to the initiate packet reports
///
/// ## Arguments
/// * `buffer` - The bytes of the answer
pub fn read_handshake<E>(buffer: &[u8]) -> (tunnel_id: Result<u32, UdpTunnelError<E>>)
    ensures
        tunnel_id == initiated::<E>(packet_in(buffer@)),
{
    initiated_tunnel(deserialize_message(buffer))
}

/// The attempts to complete a handshake
pub struct HandshakeAttempts {
    /// Number of attempts that failed
    retry_count: u8,
    /// Seconds to wait after the next one that fails
    retry_delay: u64,
}

impl View for HandshakeAttempts {
    type V = nat;

    /// The number of attempts that failed
    closed spec fn view(&self) -> nat {
        self.retry_count as nat
    }
}

/// What follows an attempt to complete a handshake
#[derive(Debug)]
pub enum HandshakeStep<E> {
    /// The tunnel with the ID is initiated
    Done(u32),
    /// Try again after the seconds
    Retry(u64),
    /// Report the error after the seconds
    GiveUp(u64, UdpTunnelError<E>),
}

/// The seconds to wait after an attempt when `failures` failed before it
pub open spec fn retry_delay(failures: nat) -> nat {
    FIRST_RETRY_DELAY as nat * pow2(failures)
}

/// The error of a failed attempt, a timeout being one
pub open spec fn attempt_error<E>(outcome: Option<Result<u32, UdpTunnelError<E>>>) -> Option<
    UdpTunnelError<E>,
> {
    match outcome {
        Some(Ok(_)) => None,
        Some(Err(error)) => Some(error),
        None => Some(UdpTunnelError::HandshakeTimeout),
    }
}

/// What follows an attempt when `failures` failed before it: the handshake is
/// tried up to five times, and the wait doubles each time. The error of the
/// last attempt is reported, after its wait.
pub open spec fn handshake_step<E>(
    failures: nat,
    outcome: Option<Result<u32, UdpTunnelError<E>>>,
) -> HandshakeStep<E> {
    match outcome {
        Some(Ok(tunnel_id)) => HandshakeStep::Done(tunnel_id),
        _ => if failures + 1 < MAX_HANDSHAKE_ATTEMPTS {
            HandshakeStep::Retry(retry_delay(failures) as u64)
        } else {
            HandshakeStep::GiveUp(retry_delay(failures) as u64, attempt_error(outcome)->0)
        },
    }
}

impl HandshakeAttempts {
    /// Whether the attempts still go on
    pub closed spec fn well_formed(&self) -> bool {
        &&& self.retry_count < MAX_HANDSHAKE_ATTEMPTS
        &&& self.retry_delay == retry_delay(self.retry_count as nat)
    }

    /// Starts without any attempt
    pub fn new() -> (attempts: HandshakeAttempts)
        ensures
            attempts@ == 0,
            attempts.well_formed(),
    {
        proof {
            vstd::arithmetic::power2::lemma2_to64();
        }
        HandshakeAttempts { retry_count: 0, retry_delay: FIRST_RETRY_DELAY }
    }

    /// Takes the outcome of an attempt, none if it timed out, and provides what
    /// follows
    pub fn record<E>(&mut self, outcome: Option<Result<u32, UdpTunnelError<E>>>) -> (step:
        HandshakeStep<E>)
        requires
            old(self).well_formed(),
        ensures
            step == handshake_step(old(self)@, outcome),
            final(self)@ == (if step is Done {
                old(self)@
            } else {
                old(self)@ + 1
            }),
            !(step is GiveUp) ==> final(self).well_formed(),
    {
        let error = match outcome {
            // Successful handshake
            Some(Ok(value)) => return HandshakeStep::Done(value),
            // Got an error while processing the handshake
            Some(Err(error)) => error,
            // Handshaking process timed out
            None => UdpTunnelError::HandshakeTimeout,
        };
        proof {
            vstd::arithmetic::power2::lemma2_to64();
            lemma_pow2_unfold(self.retry_count as nat + 1);
            lemma_retry_delay_bound(self.retry_count as nat);
        }
        self.retry_count = self.retry_count + 1;

        // Wait between attempts with exponential backoff
        let delay: u64 = self.retry_delay;
        self.retry_delay = self.retry_delay * 2;

        if self.retry_count >= MAX_HANDSHAKE_ATTEMPTS {
            return HandshakeStep::GiveUp(delay, error);
        }
        HandshakeStep::Retry(delay)
    }
}

/// The waits are short
proof fn lemma_retry_delay_bound(failures: nat)
    requires
        failures < MAX_HANDSHAKE_ATTEMPTS,
    ensures
        retry_delay(failures) <= 80,
{
    vstd::arithmetic::power2::lemma2_to64();
    assert(failures == 0 || failures == 1 || failures == 2 || failures == 3 || failures == 4);
}

/// The waits after failed attempts are 5, 10, 20, 40 and 80 seconds
pub proof fn law_handshake_delays()
    ensures
        retry_delay(0) == 5,
        retry_delay(1) == 10,
        retry_delay(2) == 20,
        retry_delay(3) == 40,
        retry_delay(4) == 80,
{
    vstd::arithmetic::power2::lemma2_to64();
}

/// What a handshake comes to when its attempts have the outcomes, one after the
/// other, and `failures` failed before them: none while it would be tried again
pub open spec fn handshake_result<E>(
    failures: nat,
    outcomes: Seq<Option<Result<u32, UdpTunnelError<E>>>>,
) -> Option<Result<u32, UdpTunnelError<E>>>
    decreases outcomes.len(),
{
    if outcomes.len() == 0 {
        None
    } else {
        match handshake_step(failures, outcomes[0]) {
            HandshakeStep::Done(tunnel_id) => Some(Ok(tunnel_id)),
            HandshakeStep::GiveUp(_, error) => Some(Err(error)),
            HandshakeStep::Retry(_) => handshake_result(failures + 1, outcomes.drop_first()),
        }
    }
}

/// A handshake that failed before goes on with the outcome that ends it
proof fn lemma_handshake_result<E>(
    failures: nat,
    outcomes: Seq<Option<Result<u32, UdpTunnelError<E>>>>,
    last: int,
)
    requires
        0 <= last < outcomes.len(),
        failures + last < MAX_HANDSHAKE_ATTEMPTS,
        forall|i: int| 0 <= i < last ==> attempt_error(#[trigger] outcomes[i]) is Some,
        attempt_error(outcomes[last]) is Some ==> failures + last + 1 == MAX_HANDSHAKE_ATTEMPTS,
    ensures
        handshake_result(failures, outcomes) == Some(
            match attempt_error(outcomes[last]) {
                Some(error) => Err(error),
                None => outcomes[last]->0,
            },
        ),
    decreases last,
{
    if last > 0 {
        assert(attempt_error(outcomes[0]) is Some);
        let later = outcomes.drop_first();
        assert forall|i: int| 0 <= i < last - 1 implies attempt_error(
            #[trigger] later[i],
        ) is Some by {
            assert(later[i] == outcomes[i + 1]);
        }
        lemma_handshake_result(failures + 1, later, last - 1);
    }
}

/// The first success of up to five attempts ends a handshake, and the tunnel is
/// the one that it reports
pub proof fn law_handshake_succeeds<E>(
    outcomes: Seq<Option<Result<u32, UdpTunnelError<E>>>>,
    success: int,
    tunnel_id: u32,
)
    requires
        0 <= success < outcomes.len(),
        success < 5,
        forall|i: int| 0 <= i < success ==> attempt_error(#[trigger] outcomes[i]) is Some,
        outcomes[success] == Some(Ok::<u32, UdpTunnelError<E>>(tunnel_id)),
    ensures
        handshake_result(0, outcomes) == Some(Ok::<u32, UdpTunnelError<E>>(tunnel_id)),
{
    lemma_handshake_result(0, outcomes, success);
}

/// A handshake that fails five times in a row reports the error of the fifth
/// attempt, and one that failed less often is tried again
pub proof fn law_handshake_fails<E>(outcomes: Seq<Option<Result<u32, UdpTunnelError<E>>>>)
    requires
        forall|i: int| 0 <= i < outcomes.len() ==> attempt_error(#[trigger] outcomes[i]) is Some,
    ensures
        outcomes.len() >= 5 ==> handshake_result(0, outcomes) == Some(
            Err::<u32, UdpTunnelError<E>>(attempt_error(outcomes[4])->0),
        ),
        outcomes.len() < 5 ==> handshake_result(0, outcomes) is None,
{
    if outcomes.len() >= 5 {
        lemma_handshake_result(0, outcomes, 4);
    } else {
        lemma_handshake_goes_on(0, outcomes);
    }
}

/// Too few failures do not end a handshake
proof fn lemma_handshake_goes_on<E>(
    failures: nat,
    outcomes: Seq<Option<Result<u32, UdpTunnelError<E>>>>,
)
    requires
        failures + outcomes.len() < MAX_HANDSHAKE_ATTEMPTS,
        forall|i: int| 0 <= i < outcomes.len() ==> attempt_error(#[trigger] outcomes[i]) is Some,
    ensures
        handshake_result(failures, outcomes) is None,
    decreases outcomes.len(),
{
    if outcomes.len() > 0 {
        assert(attempt_error(outcomes[0]) is Some);
        let later = outcomes.drop_first();
        assert forall|i: int| 0 <= i < later.len() implies attempt_error(
            #[trigger] later[i],
        ) is Some by {
            assert(later[i] == outcomes[i + 1]);
        }
        lemma_handshake_goes_on(failures + 1, later);
    }
}

/// The answer that reports a tunnel is taken as that tunnel, whatever tunnel it
/// comes from and whatever follows it
pub proof fn law_initiated_packet<E>(tunnel_id: u32, sender: u32, rest: Seq<u8>)
    ensures
        initiated::<E>(
            packet_in(packet_bytes(sender, UdpMessageView::Initiated { tunnel_id }) + rest),
        ) == Ok::<u32, UdpTunnelError<E>>(tunnel_id),
{
    super::packet::law_packet_round_trip(sender, UdpMessageView::Initiated { tunnel_id }, rest);
}

/// A success ends a handshake with its tunnel, however many attempts failed. After
/// the first four failures it is tried again, whatever the error was, and after
/// the fifth that error is reported. An attempt without an answer is a timeout.
pub proof fn law_handshake_step<E>(failures: nat, tunnel_id: u32, error: UdpTunnelError<E>)
    requires
        failures < 5,
    ensures
        handshake_step::<E>(failures, Some(Ok(tunnel_id))) == HandshakeStep::<E>::Done(tunnel_id),
        failures < 4 ==> {
            &&& handshake_step::<E>(failures, Some(Err(error))) is Retry
            &&& handshake_step::<E>(failures, None) is Retry
            &&& handshake_step::<E>(failures, Some(Err(error)))->Retry_0 == 5 * pow2(failures)
            &&& handshake_step::<E>(failures, None)->Retry_0 == 5 * pow2(failures)
        },
        handshake_step::<E>(4, Some(Err(error))) == HandshakeStep::GiveUp(80, error),
        handshake_step::<E>(4, None) == HandshakeStep::GiveUp(
            80,
            UdpTunnelError::<E>::HandshakeTimeout,
        ),
{
    law_handshake_delays();
    lemma_retry_delay_bound(failures);
}

/// The initiated message tells the tunnel, any other message is unexpected, and a
/// packet that is malformed is told with why it is
pub proof fn law_handshake_answer<E>(packet: UdpPacketView, error: MessageError)
    ensures
        packet.message is Initiated ==> initiated::<E>(Ok(packet)) == Ok::<u32, UdpTunnelError<E>>(
            packet.message->Initiated_tunnel_id,
        ),
        !(packet.message is Initiated) ==> initiated::<E>(Ok(packet)) == Err::<
            u32,
            UdpTunnelError<E>,
        >(UdpTunnelError::UnexpectedPacket),
        initiated::<E>(Err(error)) == Err::<u32, UdpTunnelError<E>>(
            UdpTunnelError::MalformedPacket(error),
        ),
{
}

/// The plain value of a decoded packet is that of the packet, or its error
pub proof fn law_packet_values(packet: UdpPacket, error: MessageError)
    ensures
        packet_view(Ok(packet)) == Ok::<UdpPacketView, MessageError>(packet@),
        packet_view(Err(error)) == Err::<UdpPacketView, MessageError>(error),
{
}

} // verus!
