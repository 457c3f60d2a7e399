//! Minimal fire packet parsing and creation implementation
//! this supports the very minimal required features

use vstd::prelude::*;
use vstd::std_specs::convert::FromSpecImpl;

use crate::buffer::{
    buffer_len, buffered, bytes_from_vec, bytes_len, bytes_new, can_take, contents,
    extend_from_bytes, freeze, has_room, put_u16, put_u8, split_to, take_u16, take_u8,
};
use crate::wire::{be16, be16_bytes, lemma_be16_bytes_of, lemma_be16_of_bytes};

verus! {

/// The different types of frames that can be sent
#[derive(Debug, Clone, Copy, PartialEq, Eq, Structural)]
pub enum FrameType {
    /// Request to a server
    Request,
    /// Response to a request
    Response,
    /// Async notification from the server
    Notify,
    /// Error response from the server
    Error,
}

impl FrameType {
    /// The number that stands for the frame type in a frame header
    pub open spec fn code(self) -> u8 {
        match self {
            FrameType::Request => 0,
            FrameType::Response => 1,
            FrameType::Notify => 2,
            FrameType::Error => 3,
        }
    }

    /// The frame type that a number stands for: any unknown number is a request
    pub open spec fn of_code(value: u8) -> FrameType {
        if value == 1 {
            FrameType::Response
        } else if value == 2 {
            FrameType::Notify
        } else if value == 3 {
            FrameType::Error
        } else {
            FrameType::Request
        }
    }

    /// Provides the number that stands for the frame type
    pub fn value(self) -> (value: u8)
        ensures
            value == self.code(),
    {
        match self {
            FrameType::Request => 0,
            FrameType::Response => 1,
            FrameType::Notify => 2,
            FrameType::Error => 3,
        }
    }
}

impl FromSpecImpl<u8> for FrameType {
    open spec fn obeys_from_spec() -> bool {
        true
    }

    open spec fn from_spec(value: u8) -> Self {
        FrameType::of_code(value)
    }
}

/// Conversion for bytes to frame type
impl From<u8> for FrameType {
    fn from(value: u8) -> (ty: Self) {
        match value {
            0x1 => FrameType::Response,
            0x2 => FrameType::Notify,
            0x3 => FrameType::Error,
            _ => FrameType::Request,
        }
    }
}

/// The header for a fire frame
#[derive(Debug, Clone, Copy, PartialEq, Eq, Structural)]
pub struct FrameHeader {
    /// The length of the frame contents
    pub length: usize,
    /// The component that should handle this frame
    pub component: u16,
    /// The command that should handle this frame
    pub command: u16,
    /// Error code if this is an error frame
    pub error: u16,
    /// The type of frame
    pub ty: FrameType,
    /// Frame options bitset
    pub options: u8,
    /// Sequence number for tracking request and response mappings
    pub seq: u16,
}

impl FrameHeader {
    /// The header that the first twelve bytes of `bytes` spell
    pub open spec fn read(bytes: Seq<u8>) -> FrameHeader {
        FrameHeader {
            length: be16(bytes[0], bytes[1]) as usize,
            component: be16(bytes[2], bytes[3]),
            command: be16(bytes[4], bytes[5]),
            error: be16(bytes[6], bytes[7]),
            ty: FrameType::of_code(bytes[8] / 16),
            options: bytes[9] / 16,
            seq: be16(bytes[10], bytes[11]),
        }
    }

    /// The twelve bytes that spell the header. The length has 16 bits and the
    /// options have four: what does not fit is cut off.
    pub open spec fn bytes(self) -> Seq<u8> {
        be16_bytes((self.length % 0x1_0000) as u16) + be16_bytes(self.component) + be16_bytes(
            self.command,
        ) + be16_bytes(self.error) + seq![
            (self.ty.code() * 16) as u8,
            ((self.options % 16) * 16) as u8,
        ] + be16_bytes(self.seq)
    }

    /// Whether the twelve bytes of the header lose nothing of it
    pub open spec fn fits(self) -> bool {
        self.length < 0x1_0000 && self.options < 16
    }
}

/// Packet framing structure
pub struct Frame {
    /// Header for the frame
    pub header: FrameHeader,
    /// The encoded byte contents of the packet
    pub contents: bytes::Bytes,
}

/// What a frame says, with its contents as a plain sequence
pub struct FrameView {
    /// Header for the frame
    pub header: FrameHeader,
    /// The byte contents of the packet
    pub contents: Seq<u8>,
}

impl FrameView {
    /// The bytes of the frame on the wire: the header, then the contents
    pub open spec fn bytes(self) -> Seq<u8> {
        self.header.bytes() + self.contents
    }

    /// Whether the frame can be told apart in a stream: the header loses
    /// nothing and announces as many bytes as the contents have
    pub open spec fn well_formed(self) -> bool {
        self.header.fits() && self.header.length == self.contents.len()
    }
}

impl View for Frame {
    type V = FrameView;

    open spec fn view(&self) -> FrameView {
        FrameView { header: self.header, contents: contents(self.contents) }
    }
}

/// The header of the response to a frame with the header `request`, when the
/// response has `length` bytes
pub open spec fn response_header(request: FrameHeader, length: usize) -> FrameHeader {
    FrameHeader {
        length,
        component: request.component,
        command: request.command,
        error: 0,
        ty: FrameType::Response,
        options: 0,
        seq: request.seq,
    }
}

impl Frame {
    /// Creates a new response frame responding to the provided `header`
    /// with the bytes contents of `value`
    ///
    /// ## Arguments
    /// * `header`   - The header of the frame to respond to
    /// * `contents` - The bytes of the frame
    pub fn response_raw(header: &FrameHeader, contents: bytes::Bytes) -> (frame: Frame)
        ensures
            frame.contents == contents,
            frame@.header == response_header(*header, frame@.contents.len() as usize),
            frame@.header.length == frame@.contents.len(),
    {
        Frame {
            header: FrameHeader {
                length: bytes_len(&contents),
                component: header.component,
                command: header.command,
                error: 0,
                ty: FrameType::Response,
                options: 0,
                seq: header.seq,
            },
            contents,
        }
    }

    /// Creates a new response frame responding to the provided `header`
    /// with the encoded contents of the `value`
    ///
    /// ## Arguments
    /// * `header` - The header of the frame to respond to
    /// * `value`  - The encoded value to send as the frame bytes
    pub fn response(header: &FrameHeader, value: Vec<u8>) -> (frame: Frame)
        ensures
            frame@.contents == value@,
            frame@.header == response_header(*header, value@.len() as usize),
            frame@.header.length == value@.len(),
    {
        Self::response_raw(header, bytes_from_vec(value))
    }

    /// Creates a new response frame responding to the provided `header`
    /// with empty contents
    ///
    /// ## Arguments
    /// * `header` - The header of the frame to respond to
    pub fn response_empty(header: &FrameHeader) -> (frame: Frame)
        ensures
            frame@.contents == Seq::<u8>::empty(),
            frame@.header == response_header(*header, 0),
    {
        Self::response_raw(header, bytes_new())
    }
}

/// The number of bytes of a frame header
pub const MIN_HEADER_SIZE: usize = 12;

/// Codec for encoding and decoding fire frames
pub struct FireCodec {
    /// Incomplete frame thats currently being read
    current_frame: Option<FrameHeader>,
}

impl View for FireCodec {
    type V = Option<FrameHeader>;

    /// The header whose contents have not all arrived yet
    closed spec fn view(&self) -> Option<FrameHeader> {
        self.current_frame
    }
}

/// One turn of the decoder: what it still waits for, what is left of the
/// input, and the frame that was completed
pub struct FireStep {
    /// The header whose contents have not all arrived yet
    pub pending: Option<FrameHeader>,
    /// The input that is not consumed
    pub rest: Seq<u8>,
    /// The completed frame
    pub frame: Option<FrameView>,
}

/// What one turn of the decoder does with `input` while `pending` waits for
/// its contents. A header is taken off the input once its twelve bytes are
/// there, the contents once all of them are.
pub open spec fn fire_step(pending: Option<FrameHeader>, input: Seq<u8>) -> FireStep {
    if pending is None && input.len() < MIN_HEADER_SIZE {
        FireStep { pending, rest: input, frame: None }
    } else {
        let (header, body) = match pending {
            Some(header) => (header, input),
            None => (FrameHeader::read(input), input.skip(MIN_HEADER_SIZE as int)),
        };
        if body.len() < header.length {
            FireStep { pending: Some(header), rest: body, frame: None }
        } else {
            FireStep {
                pending: None,
                rest: body.skip(header.length as int),
                frame: Some(FrameView { header, contents: body.take(header.length as int) }),
            }
        }
    }
}

impl Default for FireCodec {
    fn default() -> (codec: Self)
        ensures
            codec@ is None,
    {
        FireCodec { current_frame: None }
    }
}

impl FireCodec {
    /// Takes the next frame off `src`. There is none while bytes of its header
    /// or contents are missing: the call is then repeated once more bytes have
    /// been appended to `src`.
    pub fn decode(&mut self, src: &mut bytes::BytesMut) -> (frame: Option<Frame>)
        ensures
            ({
                let step = fire_step(old(self)@, buffered(*old(src)));
                &&& final(self)@ == step.pending
                &&& buffered(*final(src)) == step.rest
                &&& match frame {
                    Some(frame) => step.frame == Some(frame@),
                    None => step.frame is None,
                }
            }),
    {
        let ghost input = buffered(*src);
        let header: FrameHeader = match self.current_frame {
            // Use the existing frame
            Some(header) => header,
            None => {
                // Ensure there is at least enough bytes for the header
                if buffer_len(src) < MIN_HEADER_SIZE {
                    return None;
                }
                // Read the length of the fire frame

                let length: usize = take_u16(src) as usize;
                let component: u16 = take_u16(src);
                let command: u16 = take_u16(src);
                let error: u16 = take_u16(src);
                let ty_byte: u8 = take_u8(src);
                let ty: FrameType = FrameType::from(ty_byte >> 4);
                let options_byte: u8 = take_u8(src);
                let options: u8 = options_byte >> 4;
                let seq: u16 = take_u16(src);
                proof {
                    assert(ty_byte >> 4 == ty_byte / 16) by (bit_vector);
                    assert(options_byte >> 4 == options_byte / 16) by (bit_vector);
                    assert(buffered(*src) =~= input.skip(MIN_HEADER_SIZE as int));
                }

                let header = FrameHeader { length, component, command, error, ty, options, seq };
                assert(header == FrameHeader::read(input));
                self.current_frame = Some(header);
                header
            },
        };

        // Ensure there are enough bytes for the entire frame
        if buffer_len(src) < header.length {
            return None;
        }
        // Take the frame we are currently working on

        self.current_frame = None;
        // Take all the frame bytes
        let buffer = split_to(src, header.length);

        Some(Frame { header, contents: freeze(buffer) })
    }

    /// Appends the bytes of `item` to `dst` if it has room for them
    pub fn try_encode(&mut self, item: Frame, dst: &mut bytes::BytesMut) -> (encoded: bool)
        ensures
            encoded == has_room(*old(dst), MIN_HEADER_SIZE as nat + item@.contents.len()),
            final(self)@ == old(self)@,
            buffered(*final(dst)) == (if encoded {
                buffered(*old(dst)) + item@.bytes()
            } else {
                buffered(*old(dst))
            }),
    {
        if !can_take(dst, MIN_HEADER_SIZE, &item.contents) {
            return false;
        }
        self.encode(item, dst);
        true
    }

    /// Appends the bytes of `item` to `dst`
    pub fn encode(&mut self, item: Frame, dst: &mut bytes::BytesMut)
        requires
            has_room(*old(dst), MIN_HEADER_SIZE as nat + item@.contents.len()),
        ensures
            final(self)@ == old(self)@,
            buffered(*final(dst)) == buffered(*old(dst)) + item@.bytes(),
    {
        let ghost start = buffered(*dst);
        let header = item.header;
        let length: usize = header.length;
        let ty: u8 = header.ty.value();
        let options: u8 = header.options;
        proof {
            assert(length as u16 == length % 0x1_0000) by (bit_vector);
            assert(ty <= 3 ==> ty << 4 == ty * 16) by (bit_vector);
            assert(options << 4 == (options % 16) * 16) by (bit_vector);
        }
        put_u16(dst, #[verifier::truncate] (length as u16));
        put_u16(dst, header.component);
        put_u16(dst, header.command);
        put_u16(dst, header.error);
        put_u8(dst, ty << 4);
        put_u8(dst, options << 4);
        put_u16(dst, header.seq);
        assert(buffered(*dst) =~= start + header.bytes());

        extend_from_bytes(dst, &item.contents);
        assert(buffered(*dst) =~= start + item@.bytes());
    }
}

/// The bytes of a run of frames, one after the other
pub open spec fn stream_bytes(frames: Seq<FrameView>) -> Seq<u8>
    decreases frames.len(),
{
    if frames.len() == 0 {
        Seq::empty()
    } else {
        frames[0].bytes() + stream_bytes(frames.drop_first())
    }
}

/// What the decoder gives until it has to wait for more input
pub struct FireDrain {
    /// The header whose contents have not all arrived yet
    pub pending: Option<FrameHeader>,
    /// The input that is not consumed
    pub rest: Seq<u8>,
    /// The completed frames, in order
    pub frames: Seq<FrameView>,
}

/// What repeated turns of the decoder give, up to the first one without a frame
pub open spec fn fire_drain(pending: Option<FrameHeader>, input: Seq<u8>) -> FireDrain
    decreases input.len(), (if pending is Some { 1int } else { 0int }),
{
    let step = fire_step(pending, input);
    match step.frame {
        None => FireDrain { pending: step.pending, rest: step.rest, frames: Seq::empty() },
        Some(frame) => {
            let later = fire_drain(step.pending, step.rest);
            FireDrain { frames: seq![frame] + later.frames, ..later }
        },
    }
}

/// Twelve bytes that spell a header which loses nothing are read back as it
pub proof fn law_header_round_trip(header: FrameHeader, rest: Seq<u8>)
    requires
        header.fits(),
    ensures
        FrameHeader::read(header.bytes() + rest) == header,
        header.bytes().len() == MIN_HEADER_SIZE,
{
    broadcast use lemma_be16_of_bytes;

    let bytes = header.bytes() + rest;
    assert(bytes.subrange(0, 2) =~= be16_bytes(header.length as u16));
    assert(bytes.subrange(2, 4) =~= be16_bytes(header.component));
    assert(bytes.subrange(4, 6) =~= be16_bytes(header.command));
    assert(bytes.subrange(6, 8) =~= be16_bytes(header.error));
    assert(bytes.subrange(10, 12) =~= be16_bytes(header.seq));
    assert forall|i: int| 0 <= i < 10 implies #[trigger] bytes[i] == bytes.subrange(
        i / 2 * 2,
        i / 2 * 2 + 2,
    )[i % 2] by {}
    assert(bytes[10] == bytes.subrange(10, 12)[0]);
    assert(bytes[11] == bytes.subrange(10, 12)[1]);
}

/// A frame that was encoded is decoded as it was, and what follows it stays
pub proof fn law_frame_round_trip(frame: FrameView, rest: Seq<u8>)
    requires
        frame.well_formed(),
    ensures
        fire_step(None, frame.bytes() + rest) == (FireStep {
            pending: None,
            rest,
            frame: Some(frame),
        }),
{
    let body = frame.contents + rest;
    assert(frame.bytes() + rest =~= frame.header.bytes() + body);
    law_header_round_trip(frame.header, body);
    assert((frame.header.bytes() + body).skip(MIN_HEADER_SIZE as int) =~= body);
    assert(body.skip(frame.header.length as int) =~= rest);
    assert(body.take(frame.header.length as int) =~= frame.contents);
}

/// A frame in front of other input is the first that the decoder gives
#[verifier::spinoff_prover]
proof fn lemma_drain_frame(frame: FrameView, rest: Seq<u8>)
    requires
        frame.well_formed(),
    ensures
        fire_drain(None, frame.bytes() + rest) == (FireDrain {
            frames: seq![frame] + fire_drain(None, rest).frames,
            ..fire_drain(None, rest)
        }),
{
    law_frame_round_trip(frame, rest);
}

/// A run of encoded frames is decoded as the same run of frames
#[verifier::spinoff_prover]
pub proof fn law_stream_round_trip(frames: Seq<FrameView>)
    requires
        forall|i: int| 0 <= i < frames.len() ==> (#[trigger] frames[i]).well_formed(),
    ensures
        fire_drain(None, stream_bytes(frames)) == (FireDrain {
            pending: None,
            rest: Seq::empty(),
            frames,
        }),
    decreases frames.len(),
{
    if frames.len() == 0 {
        assert(frames =~= Seq::empty());
    } else {
        let later = frames.drop_first();
        assert forall|i: int| 0 <= i < later.len() implies (#[trigger] later[i]).well_formed() by {
            assert(later[i] == frames[i + 1]);
        }
        law_stream_round_trip(later);
        assert(frames[0].well_formed());
        lemma_drain_frame(frames[0], stream_bytes(later));
        assert(seq![frames[0]] + later =~= frames);
    }
}

/// A turn of the decoder that had to wait loses nothing: once more input has
/// arrived it goes on as if all of the input had been there from the start. A
/// turn that gave a frame would have given the same with more input behind it.
pub proof fn law_decode_in_parts(pending: Option<FrameHeader>, first: Seq<u8>, second: Seq<u8>)
    ensures
        ({
            let step = fire_step(pending, first);
            let whole = fire_step(pending, first + second);
            match step.frame {
                None => whole == fire_step(step.pending, step.rest + second),
                Some(frame) => whole == (FireStep { rest: step.rest + second, ..step }),
            }
        }),
{
    let input = first + second;
    if pending is None && first.len() >= MIN_HEADER_SIZE {
        let body = first.skip(MIN_HEADER_SIZE as int);
        assert(input.skip(MIN_HEADER_SIZE as int) =~= body + second);
        assert(FrameHeader::read(input) == FrameHeader::read(first));
        lemma_contents_in_parts(FrameHeader::read(first), body, second);
    } else if let Some(header) = pending {
        lemma_contents_in_parts(header, first, second);
    }
}

/// More input behind complete contents does not change them
proof fn lemma_contents_in_parts(header: FrameHeader, body: Seq<u8>, second: Seq<u8>)
    ensures
        body.len() >= header.length ==> {
            &&& (body + second).skip(header.length as int) == body.skip(header.length as int)
                + second
            &&& (body + second).take(header.length as int) == body.take(header.length as int)
        },
{
    if body.len() >= header.length {
        assert((body + second).skip(header.length as int) =~= body.skip(header.length as int)
            + second);
        assert((body + second).take(header.length as int) =~= body.take(header.length as int));
    }
}

/// The frames that the decoder gives do not depend on where the stream was cut
/// in two on its way
pub proof fn law_drain_in_parts(pending: Option<FrameHeader>, first: Seq<u8>, second: Seq<u8>)
    ensures
        ({
            let early = fire_drain(pending, first);
            let late = fire_drain(early.pending, early.rest + second);
            fire_drain(pending, first + second) == (FireDrain {
                frames: early.frames + late.frames,
                ..late
            })
        }),
    decreases first.len(), (if pending is Some { 1int } else { 0int }),
{
    let step = fire_step(pending, first);
    law_decode_in_parts(pending, first, second);
    match step.frame {
        None => {
            let late = fire_drain(step.pending, step.rest + second);
            assert(Seq::<FrameView>::empty() + late.frames =~= late.frames);
        },
        Some(frame) => {
            law_drain_in_parts(step.pending, step.rest, second);
            let early = fire_drain(step.pending, step.rest);
            let late = fire_drain(early.pending, early.rest + second);
            assert(seq![frame] + (early.frames + late.frames) =~= (seq![frame] + early.frames)
                + late.frames);
        },
    }
}

/// Encoding a decoded frame gives back the bytes it was read from, when its
/// type is a known one and the unused half bytes of the header are zero
pub proof fn law_encode_decoded(input: Seq<u8>)
    requires
        fire_step(None, input).frame is Some,
        input[8] % 16 == 0,
        input[8] / 16 <= 3,
        input[9] % 16 == 0,
    ensures
        fire_step(None, input).frame->0.bytes() + fire_step(None, input).rest == input,
{
    let step = fire_step(None, input);
    let frame = step.frame->0;
    let header = FrameHeader::read(input);
    lemma_be16_bytes_of(input[0], input[1]);
    lemma_be16_bytes_of(input[2], input[3]);
    lemma_be16_bytes_of(input[4], input[5]);
    lemma_be16_bytes_of(input[6], input[7]);
    lemma_be16_bytes_of(input[10], input[11]);
    assert(header.bytes() =~= input.take(MIN_HEADER_SIZE as int));
    let body = input.skip(MIN_HEADER_SIZE as int);
    assert(body.take(header.length as int) + body.skip(header.length as int) =~= body);
    assert(frame.bytes() + step.rest =~= input);
}

/// The numbers of the frame types: one for each, and every number that stands for
/// no other type stands for a request
pub proof fn law_frame_types(ty: FrameType, value: u8)
    ensures
        FrameType::of_code(ty.code()) == ty,
        ty == FrameType::Request <==> ty.code() == 0,
        FrameType::of_code(value) == FrameType::Response <==> value == 1,
        FrameType::of_code(value) == FrameType::Notify <==> value == 2,
        FrameType::of_code(value) == FrameType::Error <==> value == 3,
        FrameType::of_code(value) == FrameType::Request <==> value == 0 || value > 3,
{
}

/// Where the fields of a header stand in its twelve bytes: the big-endian length,
/// component, command and error, the type and the options in the high half of a
/// byte each, and the big-endian sequence number
pub proof fn law_header_layout(header: FrameHeader)
    ensures
        ({
            let bytes = header.bytes();
            &&& bytes.len() == 12
            &&& bytes[0] * 256 + bytes[1] == header.length % 65536
            &&& bytes[2] * 256 + bytes[3] == header.component
            &&& bytes[4] * 256 + bytes[5] == header.command
            &&& bytes[6] * 256 + bytes[7] == header.error
            &&& bytes[8] == header.ty.code() * 16
            &&& bytes[9] == (header.options % 16) * 16
            &&& bytes[10] * 256 + bytes[11] == header.seq
        }),
{
}

/// Where the fields of a header are read from
pub proof fn law_header_is_read(bytes: Seq<u8>)
    requires
        bytes.len() >= 12,
    ensures
        ({
            let header = FrameHeader::read(bytes);
            &&& header.length == bytes[0] * 256 + bytes[1]
            &&& header.component == bytes[2] * 256 + bytes[3]
            &&& header.command == bytes[4] * 256 + bytes[5]
            &&& header.error == bytes[6] * 256 + bytes[7]
            &&& header.ty == FrameType::of_code(bytes[8] / 16)
            &&& header.options == bytes[9] / 16
            &&& header.seq == bytes[10] * 256 + bytes[11]
        }),
{
}

/// A frame is its header and then its contents, and can be told apart if the
/// length is that of the contents and nothing of the header is cut off
pub proof fn law_frame_layout(frame: FrameView)
    ensures
        frame.bytes().take(12) == frame.header.bytes(),
        frame.bytes().skip(12) == frame.contents,
        frame.well_formed() <==> frame.header.length == frame.contents.len()
            && frame.contents.len() < 65536 && frame.header.options < 16,
{
    law_header_layout(frame.header);
    assert(frame.bytes().take(12) =~= frame.header.bytes());
    assert(frame.bytes().skip(12) =~= frame.contents);
}

/// The decoder waits for the twelve bytes of a header, then for as many bytes as
/// the header announces, and then gives exactly these. It gives a frame exactly
/// when all of its bytes are there, and consumes nothing behind it.
pub proof fn law_decoder_gives_frames(pending: Option<FrameHeader>, input: Seq<u8>)
    ensures
        ({
            let step = fire_step(pending, input);
            let start: int = if pending is Some {
                0
            } else {
                12
            };
            let header = if pending is Some {
                pending->0
            } else {
                FrameHeader::read(input)
            };
            let end = start + header.length;
            &&& input.len() < start ==> step.frame is None && step.pending is None && step.rest
                == input
            &&& start <= input.len() < end ==> {
                &&& step.frame is None
                &&& step.pending == Some(header)
                &&& step.rest == input.skip(start)
            }
            &&& end <= input.len() && start <= input.len() ==> {
                &&& step.frame is Some
                &&& (step.frame->0).header == header
                &&& (step.frame->0).contents == input.subrange(start, end)
                &&& step.pending is None
                &&& step.rest == input.skip(end)
            }
        }),
{
    let start: int = if pending is Some {
        0
    } else {
        12
    };
    if start <= input.len() {
        let header = if pending is Some {
            pending->0
        } else {
            FrameHeader::read(input)
        };
        let body = input.skip(start);
        assert(input.skip(0) =~= input);
        if header.length <= body.len() {
            assert(body.take(header.length as int) =~= input.subrange(start, start + header.length));
            assert(body.skip(header.length as int) =~= input.skip(start + header.length));
        }
    }
}

/// A response has the component, command and sequence number of its request and
/// the length of its contents, and neither an error nor options
pub proof fn law_response_header(request: FrameHeader, length: usize)
    ensures
        ({
            let header = response_header(request, length);
            &&& header.length == length
            &&& header.component == request.component
            &&& header.command == request.command
            &&& header.seq == request.seq
            &&& header.error == 0
            &&& header.options == 0
            &&& header.ty == FrameType::Response
        }),
{
}

/// The plain value of a frame holds its header and the bytes of its contents
pub proof fn law_frame_values(frame: Frame)
    ensures
        frame@.header == frame.header,
        frame@.contents == contents(frame.contents),
{
}

} // verus!
