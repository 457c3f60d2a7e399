//! The packets of the UDP tunnel protocol
//!
//! ```text
//! +---------+-----------+------+------+
//! | Version | Tunnel ID | Type | Body |
//! +---------+-----------+------+------+
//!    8-bit     32-bit     8-bit
//! ```

use pocket_relay_udp_tunnel::{MessageError as WireError, TunnelMessage as WireMessage};
use vstd::prelude::*;
use vstd::utf8::{encode_utf8, encode_utf8_decode_utf8, encode_utf8_valid_utf8};

use crate::text::lossy_text;
use crate::wire::{be16, be16_bytes, be32, be32_bytes, lemma_be16_of_bytes, lemma_be32_of_bytes};

verus! {

/// The protocol version that packets are written with
pub const PROTOCOL_VERSION: u8 = 1;

/// The ID in packets of a tunnel that is not initiated yet
pub const NO_TUNNEL_ID: u32 = 0xFFFF_FFFF;

/// Variants of the tunnel body
#[derive(Debug)]
pub enum UdpMessage {
    /// Client is requesting to initiate a connection
    Initiate {
        /// Association token to authenticate with
        association_token: String,
    },
    /// Server created and associated the tunnel
    Initiated {
        /// Unique ID for the tunnel to include in future messages
        /// to identify itself
        tunnel_id: u32,
    },
    /// Client wants to forward a message
    Forward {
        /// Local socket pool index the message was sent to.
        /// Used to map to the target within the game
        index: u8,
        /// Message contents to forward
        message: Vec<u8>,
    },
    /// Keep alive
    KeepAlive,
}

/// What a message of the UDP tunnel says, as plain values
pub enum UdpMessageView {
    /// Client is requesting to initiate a connection
    Initiate {
        /// Association token to authenticate with
        association_token: Seq<char>,
    },
    /// Server created and associated the tunnel
    Initiated {
        /// Unique ID for the tunnel
        tunnel_id: u32,
    },
    /// Client wants to forward a message
    Forward {
        /// Local socket pool index the message was sent to
        index: u8,
        /// Message contents to forward
        message: Seq<u8>,
    },
    /// Keep alive
    KeepAlive,
}

impl View for UdpMessage {
    type V = UdpMessageView;

    open spec fn view(&self) -> UdpMessageView {
        match *self {
            UdpMessage::Initiate { association_token } => UdpMessageView::Initiate {
                association_token: association_token@,
            },
            UdpMessage::Initiated { tunnel_id } => UdpMessageView::Initiated { tunnel_id },
            UdpMessage::Forward { index, message } => UdpMessageView::Forward {
                index,
                message: message@,
            },
            UdpMessage::KeepAlive => UdpMessageView::KeepAlive,
        }
    }
}

impl UdpMessageView {
    /// Whether the 16 bits of a length can tell the length of what is carried
    pub open spec fn fits(self) -> bool {
        match self {
            UdpMessageView::Initiate { association_token } => encode_utf8(association_token).len()
                < 0xFFFF,
            UdpMessageView::Forward { index, message } => message.len() < 0xFFFF,
            _ => true,
        }
    }

    /// The bytes of the message: its type, then what it carries
    pub open spec fn bytes(self) -> Seq<u8> {
        match self {
            UdpMessageView::Initiate { association_token } => seq![0u8] + counted(
                encode_utf8(association_token),
            ),
            UdpMessageView::Initiated { tunnel_id } => seq![1u8] + be32_bytes(tunnel_id),
            UdpMessageView::Forward { index, message } => seq![2u8, index] + counted(message),
            UdpMessageView::KeepAlive => seq![3u8],
        }
    }
}

impl UdpMessage {
    /// Whether the 16 bits of a length can tell the length of what is carried
    pub fn fits(&self) -> (fits: bool)
        ensures
            fits == self@.fits(),
    {
        match self {
            UdpMessage::Initiate { association_token } => association_token.as_str().as_bytes().len()
                < 0xFFFF,
            UdpMessage::Forward { message, .. } => message.len() < 0xFFFF,
            _ => true,
        }
    }
}

/// Bytes with their number in front of them
pub open spec fn counted(bytes: Seq<u8>) -> Seq<u8> {
    be16_bytes(bytes.len() as u16) + bytes
}

/// The bytes of a packet from the tunnel with the ID
pub open spec fn packet_bytes(tunnel_id: u32, message: UdpMessageView) -> Seq<u8> {
    seq![PROTOCOL_VERSION] + be32_bytes(tunnel_id) + message.bytes()
}

/// Individual tunnel message packet, includes the packet header
/// and the message
#[derive(Debug)]
pub struct UdpPacket {
    /// Protocol version
    pub version: u8,
    /// ID of the tunnel this message is from
    pub tunnel_id: u32,
    /// Packet body
    pub message: UdpMessage,
}

/// What a packet says, as plain values
pub struct UdpPacketView {
    /// Protocol version
    pub version: u8,
    /// ID of the tunnel this message is from
    pub tunnel_id: u32,
    /// Packet body
    pub message: UdpMessageView,
}

impl View for UdpPacket {
    type V = UdpPacketView;

    open spec fn view(&self) -> UdpPacketView {
        UdpPacketView {
            version: self.version,
            tunnel_id: self.tunnel_id,
            message: self.message@,
        }
    }
}

/// Errors that can occur while decoding
#[derive(Debug, Clone, Copy, PartialEq, Eq, Structural)]
pub enum MessageError {
    /// Message type was unknown
    UnknownMessageType,
    /// Message didn't have enough bytes to fully parse
    Incomplete(usize),
}

/// The bytes that follow their number, or the error when there are fewer
pub open spec fn counted_in(bytes: Seq<u8>) -> Result<Seq<u8>, MessageError> {
    let rest = bytes.skip(2);
    if bytes.len() < 2 {
        Err(MessageError::Incomplete(2))
    } else if rest.len() < be16(bytes[0], bytes[1]) {
        Err(MessageError::Incomplete(rest.len() as usize))
    } else {
        Ok(rest.take(be16(bytes[0], bytes[1]) as int))
    }
}

/// The message that bytes start with, or why they start with none
pub open spec fn message_in(bytes: Seq<u8>) -> Result<UdpMessageView, MessageError> {
    if bytes.len() < 1 {
        Err(MessageError::Incomplete(1))
    } else if bytes[0] == 0 {
        match counted_in(bytes.skip(1)) {
            Ok(token) => Ok(UdpMessageView::Initiate { association_token: lossy_text(token) }),
            Err(error) => Err(error),
        }
    } else if bytes[0] == 1 {
        if bytes.len() < 5 {
            Err(MessageError::Incomplete(4))
        } else {
            Ok(
                UdpMessageView::Initiated {
                    tunnel_id: be32(bytes[1], bytes[2], bytes[3], bytes[4]),
                },
            )
        }
    } else if bytes[0] == 2 {
        if bytes.len() < 2 {
            Err(MessageError::Incomplete(1))
        } else {
            match counted_in(bytes.skip(2)) {
                Ok(message) => Ok(UdpMessageView::Forward { index: bytes[1], message }),
                Err(error) => Err(error),
            }
        }
    } else if bytes[0] == 3 {
        Ok(UdpMessageView::KeepAlive)
    } else {
        Err(MessageError::UnknownMessageType)
    }
}

/// The packet that bytes start with, or why they start with none. What follows
/// the packet is not looked at, nor is the version.
pub open spec fn packet_in(bytes: Seq<u8>) -> Result<UdpPacketView, MessageError> {
    if bytes.len() < 1 {
        Err(MessageError::Incomplete(1))
    } else if bytes.len() < 5 {
        Err(MessageError::Incomplete(4))
    } else {
        match message_in(bytes.skip(5)) {
            Ok(message) => Ok(
                UdpPacketView {
                    version: bytes[0],
                    tunnel_id: be32(bytes[1], bytes[2], bytes[3], bytes[4]),
                    message,
                },
            ),
            Err(error) => Err(error),
        }
    }
}

/// `pocket_relay_udp_tunnel::serialize_message`: the bytes of a packet with the
/// message. Lengths are written with 16 bits, and a token or message of 65535
/// bytes or more is refused by an assertion.
#[verifier::external_body]
pub(crate) fn serialize_message(tunnel_id: u32, message: &UdpMessage) -> (buffer: Vec<u8>)
    requires
        message@.fits(),
    ensures
        buffer@ == packet_bytes(tunnel_id, message@),
{
    let message = match message {
        UdpMessage::Initiate { association_token } => WireMessage::Initiate {
            association_token: association_token.clone(),
        },
        UdpMessage::Initiated { tunnel_id } => WireMessage::Initiated { tunnel_id: *tunnel_id },
        UdpMessage::Forward { index, message } => WireMessage::Forward {
            index: *index,
            message: message.clone(),
        },
        UdpMessage::KeepAlive => WireMessage::KeepAlive,
    };
    pocket_relay_udp_tunnel::serialize_message(tunnel_id, &message)
}

/// `pocket_relay_udp_tunnel::deserialize_message`: the packet that the buffer
/// starts with, or why it starts with none
#[verifier::external_body]
pub(crate) fn deserialize_message(buffer: &[u8]) -> (packet: Result<UdpPacket, MessageError>)
    ensures
        match packet {
            Ok(packet) => packet_in(buffer@) == Ok::<_, MessageError>(packet@),
            Err(error) => packet_in(buffer@) == Err::<UdpPacketView, _>(error),
        },
{
    match pocket_relay_udp_tunnel::deserialize_message(buffer) {
        Ok(packet) => Ok(UdpPacket {
            version: packet.header.version,
            tunnel_id: packet.header.tunnel_id,
            message: match packet.message {
                WireMessage::Initiate { association_token } => UdpMessage::Initiate { association_token },
                WireMessage::Initiated { tunnel_id } => UdpMessage::Initiated { tunnel_id },
                WireMessage::Forward { index, message } => UdpMessage::Forward { index, message },
                WireMessage::KeepAlive => UdpMessage::KeepAlive,
            },
        }),
        Err(WireError::UnknownMessageType) => Err(MessageError::UnknownMessageType),
        Err(WireError::Incomplete(length)) => Err(MessageError::Incomplete(length)),
    }
}

/// Counted bytes are read back as they were
proof fn lemma_counted(bytes: Seq<u8>, rest: Seq<u8>)
    requires
        bytes.len() < 0xFFFF,
    ensures
        counted_in(counted(bytes) + rest) == Ok::<_, MessageError>(bytes),
{
    let input = counted(bytes) + rest;
    lemma_be16_of_bytes(bytes.len() as u16);
    assert(input.take(2) =~= be16_bytes(bytes.len() as u16));
    assert(input[0] == input.take(2)[0] && input[1] == input.take(2)[1]);
    assert(input.skip(2) =~= bytes + rest);
    assert((bytes + rest).take(bytes.len() as int) =~= bytes);
}

/// The bytes of a number are read back as the number
proof fn lemma_be32_in(value: u32, bytes: Seq<u8>)
    requires
        bytes.len() >= 5,
        bytes.subrange(1, 5) == be32_bytes(value),
    ensures
        be32(bytes[1], bytes[2], bytes[3], bytes[4]) == value,
{
    lemma_be32_of_bytes(value);
    assert forall|i: int| 1 <= i < 5 implies bytes[i] == be32_bytes(value)[i - 1] by {
        assert(bytes[i] == bytes.subrange(1, 5)[i - 1]);
    }
}

/// An initiate message that was written is read back as it was
proof fn lemma_initiate_round_trip(token: Seq<u8>, rest: Seq<u8>)
    requires
        token.len() < 0xFFFF,
    ensures
        message_in(seq![0u8] + counted(token) + rest) == Ok::<_, MessageError>(
            UdpMessageView::Initiate { association_token: lossy_text(token) },
        ),
{
    let body = seq![0u8] + counted(token) + rest;
    lemma_counted(token, rest);
    assert(body.skip(1) =~= counted(token) + rest);
    assert(body[0] == 0);
}

/// A message that was written is read back as it was
proof fn lemma_message_round_trip(message: UdpMessageView, rest: Seq<u8>)
    requires
        message.fits(),
    ensures
        message_in(message.bytes() + rest) == Ok::<_, MessageError>(message),
{
    let body = message.bytes() + rest;
    match message {
        UdpMessageView::Initiate { association_token } => {
            encode_utf8_valid_utf8(association_token);
            encode_utf8_decode_utf8(association_token);
            lemma_initiate_round_trip(encode_utf8(association_token), rest);
        },
        UdpMessageView::Initiated { tunnel_id } => {
            assert(body.subrange(1, 5) =~= be32_bytes(tunnel_id));
            lemma_be32_in(tunnel_id, body);
            assert(body[0] == 1);
        },
        UdpMessageView::Forward { index, message } => {
            lemma_counted(message, rest);
            assert(body.skip(2) =~= counted(message) + rest);
            assert(body[0] == 2 && body[1] == index);
        },
        UdpMessageView::KeepAlive => {
            assert(body[0] == 3);
        },
    }
}

/// A packet that was written is read back as it was, whatever follows it
pub proof fn law_packet_round_trip(tunnel_id: u32, message: UdpMessageView, rest: Seq<u8>)
    requires
        message.fits(),
    ensures
        packet_in(packet_bytes(tunnel_id, message) + rest) == Ok::<_, MessageError>(
            UdpPacketView { version: PROTOCOL_VERSION, tunnel_id, message },
        ),
{
    let input = packet_bytes(tunnel_id, message) + rest;
    assert(input.subrange(1, 5) =~= be32_bytes(tunnel_id));
    lemma_be32_in(tunnel_id, input);
    assert(input.skip(5) =~= message.bytes() + rest);
    lemma_message_round_trip(message, rest);
}

/// Where the parts of a packet stand: the version 1, the big-endian ID of the
/// tunnel and the type, then the ID of the initiated tunnel, or the index of a
/// forwarded message, and behind its big-endian length what the message carries
pub proof fn law_packet_layout(tunnel_id: u32, message: UdpMessageView)
    ensures
        ({
            let bytes = packet_bytes(tunnel_id, message);
            &&& bytes[0] == 1
            &&& bytes.subrange(1, 5) == be32_bytes(tunnel_id)
            &&& message is Initiate ==> {
                let token = encode_utf8(message->association_token);
                &&& bytes[5] == 0
                &&& bytes.subrange(6, 8) == be16_bytes(token.len() as u16)
                &&& bytes.skip(8) == token
            }
            &&& message is Initiated ==> bytes[5] == 1 && bytes.skip(6) == be32_bytes(
                message->tunnel_id,
            )
            &&& message is Forward ==> {
                &&& bytes[5] == 2
                &&& bytes[6] == message->index
                &&& bytes.subrange(7, 9) == be16_bytes(message->message.len() as u16)
                &&& bytes.skip(9) == message->message
            }
            &&& message is KeepAlive ==> bytes[5] == 3 && bytes.len() == 6
        }),
{
    let bytes = packet_bytes(tunnel_id, message);
    assert(bytes.subrange(1, 5) =~= be32_bytes(tunnel_id));
    match message {
        UdpMessageView::Initiate { association_token } => {
            let token = encode_utf8(association_token);
            assert(bytes.subrange(6, 8) =~= be16_bytes(token.len() as u16));
            assert(bytes.skip(8) =~= token);
        },
        UdpMessageView::Initiated { tunnel_id } => {
            assert(bytes.skip(6) =~= be32_bytes(tunnel_id));
        },
        UdpMessageView::Forward { index, message } => {
            assert(bytes.subrange(7, 9) =~= be16_bytes(message.len() as u16));
            assert(bytes.skip(9) =~= message);
        },
        UdpMessageView::KeepAlive => {},
    }
}

} // verus!
