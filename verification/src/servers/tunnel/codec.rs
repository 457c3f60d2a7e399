//! This modules contains the codec and message structures for [TunnelMessage]s
//!
//! # Tunnel Messages
//!
//! Tunnel message frames are as follows:
//!
//! ```text
//!  0                   1                   2
//!  0 1 2 3 4 5 6 7 8 9 0 1 2 3 4 5 6 7 8 9 0 1 2 3
//! +-+-+-+-+-+-+-+-+-+-+-+-+-+-+-+-+-+-+-+-+-+-+-+-+
//! |     Index     |            Length             |
//! +-+-+-+-+-+-+-+-+-+-+-+-+-+-+-+-+-+-+-+-+-+-+-+-+
//! |                                               :
//! :                    Payload                    :
//! :                                               |
//! +-+-+-+-+-+-+-+-+-+-+-+-+-+-+-+-+-+-+-+-+-+-+-+-+
//! ```
//!
//! Tunnel message frames contain the following fields:
//!
//! Index: 8-bits. Determines the destination of the message within the current pool.
//!
//! Length: 16-bits. Determines the size in bytes of the payload that follows
//!
//! Payload: Variable length. The message bytes payload of `Length`
//!
//!
//! ## Keep alive
//!
//! The server will send keep-alive messages, these are in the same
//! format as the packet above. However, the index will always be 255
//! and the payload will be empty.

use vstd::prelude::*;

use crate::buffer::{
    buffer_len, buffered, bytes_len, can_take, contents, extend_from_bytes, freeze, has_room,
    put_u16, put_u8, split_to, take_u16, take_u8,
};
use crate::wire::{be16, be16_bytes, lemma_be16_bytes_of, lemma_be16_of_bytes};

verus! {

/// The number of bytes of the index and the length of a message. A message
/// with an empty payload has no more than these.
pub const HEADER_SIZE: usize = 3;

/// Header portion of a [TunnelMessage] that contains the
/// index of the message and the length of the expected payload
#[derive(Debug, Clone, Copy, PartialEq, Eq, Structural)]
pub struct TunnelMessageHeader {
    /// Socket index to use
    pub index: u8,
    /// The length of the tunnel message bytes
    pub length: u16,
}

impl TunnelMessageHeader {
    /// The header that the first three bytes of `bytes` spell
    pub open spec fn read(bytes: Seq<u8>) -> TunnelMessageHeader {
        TunnelMessageHeader { index: bytes[0], length: be16(bytes[1], bytes[2]) }
    }
}

/// Message sent through the tunnel
pub struct TunnelMessage {
    /// Socket index to use
    pub index: u8,
    /// The message contents
    pub message: bytes::Bytes,
}

/// What a tunnel message says, with its contents as a plain sequence
pub struct MessageView {
    /// Socket index to use
    pub index: u8,
    /// The message contents
    pub message: Seq<u8>,
}

impl MessageView {
    /// The bytes of the message on the wire. The length has 16 bits: what does
    /// not fit is cut off.
    pub open spec fn bytes(self) -> Seq<u8> {
        seq![self.index] + be16_bytes((self.message.len() % 0x1_0000) as u16) + self.message
    }

    /// Whether the length field can tell the length of the payload
    pub open spec fn well_formed(self) -> bool {
        self.message.len() < 0x1_0000
    }
}

impl View for TunnelMessage {
    type V = MessageView;

    open spec fn view(&self) -> MessageView {
        MessageView { index: self.index, message: contents(self.message) }
    }
}

/// Codec for encoding and decoding tunnel messages
pub struct TunnelCodec {
    /// Stores the current message header while its waiting
    /// for the full payload to become available
    partial: Option<TunnelMessageHeader>,
}

impl View for TunnelCodec {
    type V = Option<TunnelMessageHeader>;

    /// The header whose payload has not fully arrived yet
    closed spec fn view(&self) -> Option<TunnelMessageHeader> {
        self.partial
    }
}

/// One turn of the decoder: what it still waits for, what is left of the
/// input, and the message that was completed
pub struct TunnelCodecStep {
    /// The header whose payload has not fully arrived yet
    pub partial: Option<TunnelMessageHeader>,
    /// The input that is not consumed
    pub rest: Seq<u8>,
    /// The completed message
    pub message: Option<MessageView>,
}

/// What one turn of the decoder does with `input` while `partial` waits for
/// its payload. A header is taken off the input once its three bytes are
/// there, the payload once all of it is.
pub open spec fn codec_step(partial: Option<TunnelMessageHeader>, input: Seq<u8>) -> TunnelCodecStep {
    if partial is None && input.len() < HEADER_SIZE {
        TunnelCodecStep { partial, rest: input, message: None }
    } else {
        let (header, body) = match partial {
            Some(header) => (header, input),
            None => (TunnelMessageHeader::read(input), input.skip(HEADER_SIZE as int)),
        };
        if body.len() < header.length {
            TunnelCodecStep { partial: Some(header), rest: body, message: None }
        } else {
            TunnelCodecStep {
                partial: None,
                rest: body.skip(header.length as int),
                message: Some(
                    MessageView { index: header.index, message: body.take(header.length as int) },
                ),
            }
        }
    }
}

impl Default for TunnelCodec {
    fn default() -> (codec: Self)
        ensures
            codec@ is None,
    {
        TunnelCodec { partial: None }
    }
}

impl TunnelCodec {
    /// Takes the next message off `src`. There is none while bytes of its
    /// header or payload are missing: the call is then repeated once more
    /// bytes have been appended to `src`.
    pub fn decode(&mut self, src: &mut bytes::BytesMut) -> (message: Option<TunnelMessage>)
        ensures
            ({
                let step = codec_step(old(self)@, buffered(*old(src)));
                &&& final(self)@ == step.partial
                &&& buffered(*final(src)) == step.rest
                &&& match message {
                    Some(message) => step.message == Some(message@),
                    None => step.message is None,
                }
            }),
    {
        let ghost input = buffered(*src);
        let partial: TunnelMessageHeader = match self.partial {
            Some(value) => value,
            None => {
                // Not enough room for a partial frame
                if buffer_len(src) < HEADER_SIZE {
                    return None;
                }
                let index: u8 = take_u8(src);
                let length: u16 = take_u16(src);
                assert(buffered(*src) =~= input.skip(HEADER_SIZE as int));
                let header = TunnelMessageHeader { index, length };
                self.partial = Some(header);
                header
            },
        };

        // Not enough data for the partial frame
        if buffer_len(src) < partial.length as usize {
            return None;
        }
        self.partial = None;
        let bytes = split_to(src, partial.length as usize);

        Some(TunnelMessage { index: partial.index, message: freeze(bytes) })
    }

    /// Appends the bytes of `item` to `dst` if it has room for them
    pub fn try_encode(&mut self, item: TunnelMessage, dst: &mut bytes::BytesMut) -> (encoded: bool)
        ensures
            encoded == has_room(*old(dst), HEADER_SIZE as nat + item@.message.len()),
            final(self)@ == old(self)@,
            buffered(*final(dst)) == (if encoded {
                buffered(*old(dst)) + item@.bytes()
            } else {
                buffered(*old(dst))
            }),
    {
        if !can_take(dst, HEADER_SIZE, &item.message) {
            return false;
        }
        self.encode(item, dst);
        true
    }

    /// Appends the bytes of `item` to `dst`
    pub fn encode(&mut self, item: TunnelMessage, dst: &mut bytes::BytesMut)
        requires
            has_room(*old(dst), HEADER_SIZE as nat + item@.message.len()),
        ensures
            final(self)@ == old(self)@,
            buffered(*final(dst)) == buffered(*old(dst)) + item@.bytes(),
    {
        let ghost start = buffered(*dst);
        let length: usize = bytes_len(&item.message);
        assert(length as u16 == length % 0x1_0000) by (bit_vector);
        put_u8(dst, item.index);
        put_u16(dst, #[verifier::truncate] (length as u16));
        extend_from_bytes(dst, &item.message);
        assert(buffered(*dst) =~= start + item@.bytes());
    }
}

/// The bytes of a run of messages, one after the other
pub open spec fn stream_bytes(messages: Seq<MessageView>) -> Seq<u8>
    decreases messages.len(),
{
    if messages.len() == 0 {
        Seq::empty()
    } else {
        messages[0].bytes() + stream_bytes(messages.drop_first())
    }
}

/// What the decoder gives until it has to wait for more input
pub struct TunnelCodecDrain {
    /// The header whose payload has not fully arrived yet
    pub partial: Option<TunnelMessageHeader>,
    /// The input that is not consumed
    pub rest: Seq<u8>,
    /// The completed messages, in order
    pub messages: Seq<MessageView>,
}

/// What repeated turns of the decoder give, up to the first one without a message
pub open spec fn codec_drain(
    partial: Option<TunnelMessageHeader>,
    input: Seq<u8>,
) -> TunnelCodecDrain
    decreases input.len(), (if partial is Some { 1int } else { 0int }),
{
    let step = codec_step(partial, input);
    match step.message {
        None => TunnelCodecDrain {
            partial: step.partial,
            rest: step.rest,
            messages: Seq::empty(),
        },
        Some(message) => {
            let later = codec_drain(step.partial, step.rest);
            TunnelCodecDrain { messages: seq![message] + later.messages, ..later }
        },
    }
}

/// A message that was encoded is decoded as it was, and what follows it stays
pub proof fn law_message_round_trip(message: MessageView, rest: Seq<u8>)
    requires
        message.well_formed(),
    ensures
        codec_step(None, message.bytes() + rest) == (TunnelCodecStep {
            partial: None,
            rest,
            message: Some(message),
        }),
{
    let input = message.bytes() + rest;
    let body = message.message + rest;
    let length = message.message.len() as u16;
    lemma_be16_of_bytes(length);
    assert(input.subrange(1, 3) =~= be16_bytes(length));
    assert(input[1] == input.subrange(1, 3)[0] && input[2] == input.subrange(1, 3)[1]);
    assert(TunnelMessageHeader::read(input).length == length);
    assert(input.skip(HEADER_SIZE as int) =~= body);
    assert(body.skip(length as int) =~= rest);
    assert(body.take(length as int) =~= message.message);
}

/// A message in front of other input is the first that the decoder gives
#[verifier::spinoff_prover]
proof fn lemma_drain_message(message: MessageView, rest: Seq<u8>)
    requires
        message.well_formed(),
    ensures
        codec_drain(None, message.bytes() + rest) == (TunnelCodecDrain {
            messages: seq![message] + codec_drain(None, rest).messages,
            ..codec_drain(None, rest)
        }),
{
    law_message_round_trip(message, rest);
}

/// A run of encoded messages is decoded as the same run of messages
#[verifier::spinoff_prover]
pub proof fn law_stream_round_trip(messages: Seq<MessageView>)
    requires
        forall|i: int| 0 <= i < messages.len() ==> (#[trigger] messages[i]).well_formed(),
    ensures
        codec_drain(None, stream_bytes(messages)) == (TunnelCodecDrain {
            partial: None,
            rest: Seq::empty(),
            messages,
        }),
    decreases messages.len(),
{
    if messages.len() == 0 {
        assert(messages =~= Seq::empty());
    } else {
        let later = messages.drop_first();
        assert forall|i: int| 0 <= i < later.len() implies (#[trigger] later[i]).well_formed() by {
            assert(later[i] == messages[i + 1]);
        }
        law_stream_round_trip(later);
        assert(messages[0].well_formed());
        lemma_drain_message(messages[0], stream_bytes(later));
        assert(seq![messages[0]] + later =~= messages);
    }
}

/// More input behind a complete payload does not change it
proof fn lemma_payload_in_parts(length: int, body: Seq<u8>, second: Seq<u8>)
    ensures
        0 <= length <= body.len() ==> {
            &&& (body + second).skip(length) == body.skip(length) + second
            &&& (body + second).take(length) == body.take(length)
        },
{
    if 0 <= length <= body.len() {
        assert((body + second).skip(length) =~= body.skip(length) + second);
        assert((body + second).take(length) =~= body.take(length));
    }
}

/// A turn of the decoder that had to wait loses nothing: once more input has
/// arrived it goes on as if all of the input had been there from the start. A
/// turn that gave a message would have given the same with more input behind it.
pub proof fn law_decode_in_parts(
    partial: Option<TunnelMessageHeader>,
    first: Seq<u8>,
    second: Seq<u8>,
)
    ensures
        ({
            let step = codec_step(partial, first);
            let whole = codec_step(partial, first + second);
            match step.message {
                None => whole == codec_step(step.partial, step.rest + second),
                Some(message) => whole == (TunnelCodecStep { rest: step.rest + second, ..step }),
            }
        }),
{
    let input = first + second;
    if partial is None && first.len() >= HEADER_SIZE {
        let body = first.skip(HEADER_SIZE as int);
        assert(input.skip(HEADER_SIZE as int) =~= body + second);
        assert(TunnelMessageHeader::read(input) == TunnelMessageHeader::read(first));
        lemma_payload_in_parts(TunnelMessageHeader::read(first).length as int, body, second);
    } else if let Some(header) = partial {
        lemma_payload_in_parts(header.length as int, first, second);
    }
}

/// The messages that the decoder gives do not depend on where the stream was
/// cut in two on its way
pub proof fn law_drain_in_parts(
    partial: Option<TunnelMessageHeader>,
    first: Seq<u8>,
    second: Seq<u8>,
)
    ensures
        ({
            let early = codec_drain(partial, first);
            let late = codec_drain(early.partial, early.rest + second);
            codec_drain(partial, first + second) == (TunnelCodecDrain {
                messages: early.messages + late.messages,
                ..late
            })
        }),
    decreases first.len(), (if partial is Some { 1int } else { 0int }),
{
    let step = codec_step(partial, first);
    law_decode_in_parts(partial, first, second);
    match step.message {
        None => {
            let late = codec_drain(step.partial, step.rest + second);
            assert(Seq::<MessageView>::empty() + late.messages =~= late.messages);
        },
        Some(message) => {
            law_drain_in_parts(step.partial, step.rest, second);
            let early = codec_drain(step.partial, step.rest);
            let late = codec_drain(early.partial, early.rest + second);
            assert(seq![message] + (early.messages + late.messages) =~= (seq![message]
                + early.messages) + late.messages);
        },
    }
}

/// Encoding a decoded message gives back the bytes it was read from
pub proof fn law_encode_decoded(input: Seq<u8>)
    requires
        codec_step(None, input).message is Some,
    ensures
        codec_step(None, input).message->0.bytes() + codec_step(None, input).rest == input,
{
    let step = codec_step(None, input);
    let header = TunnelMessageHeader::read(input);
    lemma_be16_bytes_of(input[1], input[2]);
    let body = input.skip(HEADER_SIZE as int);
    assert(step.message->0.message.len() == header.length);
    assert(step.message->0.bytes() + step.rest =~= input);
}

/// Where the parts of a message stand in its bytes: the index, the big-endian
/// length and then the payload. The length is told in full below 65536 bytes.
pub proof fn law_message_layout(message: MessageView)
    ensures
        message.bytes().len() == 3 + message.message.len(),
        message.bytes()[0] == message.index,
        message.bytes()[1] * 256 + message.bytes()[2] == message.message.len() % 65536,
        message.bytes().skip(3) == message.message,
        message.well_formed() <==> message.message.len() < 65536,
{
    assert(message.bytes().skip(3) =~= message.message);
}

/// Where the index and the length of a message are read from
pub proof fn law_header_is_read(bytes: Seq<u8>)
    requires
        bytes.len() >= 3,
    ensures
        TunnelMessageHeader::read(bytes).index == bytes[0],
        TunnelMessageHeader::read(bytes).length == bytes[1] * 256 + bytes[2],
{
}

/// The decoder waits for the three bytes of a header, then for as many bytes as
/// the header announces, and then gives exactly these. It gives a message exactly
/// when all of its bytes are there, and consumes nothing behind it.
pub proof fn law_decoder_gives_messages(partial: Option<TunnelMessageHeader>, input: Seq<u8>)
    ensures
        ({
            let step = codec_step(partial, input);
            let start: int = if partial is Some {
                0
            } else {
                3
            };
            let header = if partial is Some {
                partial->0
            } else {
                TunnelMessageHeader::read(input)
            };
            let end = start + header.length;
            &&& input.len() < start ==> step.message is None && step.partial is None && step.rest
                == input
            &&& start <= input.len() < end ==> {
                &&& step.message is None
                &&& step.partial == Some(header)
                &&& step.rest == input.skip(start)
            }
            &&& end <= input.len() && start <= input.len() ==> {
                &&& step.message is Some
                &&& (step.message->0).index == header.index
                &&& (step.message->0).message == input.subrange(start, end)
                &&& step.partial is None
                &&& step.rest == input.skip(end)
            }
        }),
{
    let start: int = if partial is Some {
        0
    } else {
        3
    };
    if start <= input.len() {
        let header = if partial is Some {
            partial->0
        } else {
            TunnelMessageHeader::read(input)
        };
        let body = input.skip(start);
        assert(input.skip(0) =~= input);
        if header.length <= body.len() {
            assert(body.take(header.length as int) =~= input.subrange(start, start + header.length));
            assert(body.skip(header.length as int) =~= input.skip(start + header.length));
        }
    }
}

} // verus!
