//! Server for handling decoding game client telemetry messages and
//! forwarding them to the connect Pocket Relay server

use vstd::prelude::*;
use vstd::slice::slice_subrange;
use vstd::utf8::{
    encode_utf8, encode_utf8_decode_utf8, encode_utf8_valid_utf8, is_ascii_chars_encode_utf8,
};

use crate::api::TelemetryEvent;
use crate::text::{ascii_string, byte_list, list_bytes, lossy_string, lossy_text};
use crate::wire::be16;

verus! {

/// Xor cipher key used for decoding the TML3 telemetry line message:
/// the text "The truth is back in style."
pub const TLM3_KEY: [u8; 27] = [
    0x54, 0x68, 0x65, 0x20, 0x74, 0x72, 0x75, 0x74, 0x68,
    0x20, 0x69, 0x73, 0x20, 0x62, 0x61, 0x63, 0x6B, 0x20,
    0x69, 0x6E, 0x20, 0x73, 0x74, 0x79, 0x6C, 0x65, 0x2E,
];

/// The byte that ends a line of a telemetry message
pub const NEW_LINE: u8 = 0x0A;

/// The byte between the key and the value of a line
pub const EQUALS: u8 = 0x3D;

/// The byte in front of the enciphered part of a TLM3 value
pub const DASH: u8 = 0x2D;

/// The number of bytes in front of the lines of a telemetry message
pub const HEADER_SIZE: usize = 12;

/// What the cipher makes of `input`: each byte is combined with the byte of
/// the repeated key at its place and cut to seven bits. Without a key there is
/// nothing to combine with, and the result is empty.
pub open spec fn xor_with(input: Seq<u8>, key: Seq<u8>) -> Seq<u8> {
    if key.len() == 0 {
        Seq::empty()
    } else {
        Seq::new(input.len(), |i: int| ((input[i] ^ key[i % key.len() as int]) % 0x80) as u8)
    }
}

/// Applies an xor cipher over the input using the provided key
///
/// ## Arguments
/// * input - The input value to xor
/// * key   - The key to xor with
pub fn xor_cipher(input: &[u8], key: &[u8]) -> (output: Vec<u8>)
    ensures
        output@ == xor_with(input@, key@),
{
    let mut output: Vec<u8> = Vec::new();
    if key.len() == 0 {
        return output;
    }
    let mut i: usize = 0;
    while i < input.len()
        invariant
            i <= input.len(),
            key@.len() > 0,
            output@ == xor_with(input@, key@).take(i as int),
        decreases input.len() - i,
    {
        output.push((input[i] ^ key[i % key.len()]) % 0x80);
        i += 1;
        assert(output@ =~= xor_with(input@, key@).take(i as int));
    }
    assert(output@ =~= xor_with(input@, key@));
    output
}

/// The place of the first `byte` in `bytes`, or their number if there is none
pub open spec fn find(bytes: Seq<u8>, byte: u8) -> int
    decreases bytes.len(),
{
    if bytes.len() == 0 || bytes[0] == byte {
        0
    } else {
        1 + find(bytes.drop_first(), byte)
    }
}

/// What tells the first place of a byte from all others
pub proof fn lemma_find(bytes: Seq<u8>, byte: u8)
    ensures
        0 <= find(bytes, byte) <= bytes.len(),
        forall|i: int| 0 <= i < find(bytes, byte) ==> bytes[i] != byte,
        find(bytes, byte) < bytes.len() ==> bytes[find(bytes, byte)] == byte,
    decreases bytes.len(),
{
    if bytes.len() > 0 && bytes[0] != byte {
        let later = bytes.drop_first();
        lemma_find(later, byte);
        assert forall|i: int| 0 <= i < find(bytes, byte) implies bytes[i] != byte by {
            if i > 0 {
                assert(bytes[i] == later[i - 1]);
            }
        }
    }
}

/// Provides the place of the first `byte`, or the number of bytes if there is none
fn position(bytes: &[u8], byte: u8) -> (at: usize)
    ensures
        at == find(bytes@, byte),
        at <= bytes@.len(),
{
    proof {
        lemma_find(bytes@, byte);
    }
    let mut i: usize = 0;
    while i < bytes.len() && bytes[i] != byte
        invariant
            i <= bytes.len(),
            i <= find(bytes@, byte) <= bytes@.len(),
            find(bytes@, byte) < bytes@.len() ==> bytes@[find(bytes@, byte)] == byte,
        decreases bytes.len() - i,
    {
        i += 1;
    }
    i
}

/// What a TLM3 value says: the part behind the first dash, deciphered, or the
/// list of all its bytes if it has no dash
pub open spec fn tlm3_text(input: Seq<u8>) -> Seq<char> {
    let dash = find(input, DASH);
    if dash < input.len() {
        xor_with(input.skip(dash + 1), TLM3_KEY@).map_values(|byte: u8| byte as char)
    } else {
        byte_list(input)
    }
}

/// Decodes a TLM3 line using the [`TLM3_KEY`]
///
/// ## Arguments
/// * input - The line to decode
pub fn tlm3(input: &[u8]) -> (text: String)
    ensures
        text@ == tlm3_text(input@),
{
    let dash: usize = position(input, DASH);
    if dash < input.len() {
        let line = slice_subrange(input, dash + 1, input.len());
        assert(line@ =~= input@.skip(dash + 1));
        let value = xor_cipher(line, &TLM3_KEY);
        ascii_string(value.as_slice())
    } else {
        // Stringify the input if parsing fails
        list_bytes(input)
    }
}

/// The key and value of a line: the text in front of the first equals sign and
/// what stands behind it. A line without one has none.
pub open spec fn line_value(line: Seq<u8>) -> Option<(Seq<char>, Seq<char>)> {
    let at = find(line, EQUALS);
    if at < line.len() {
        let key = lossy_text(line.take(at));
        let value = line.skip(at + 1);
        Some((key, if key == "TLM3"@ { tlm3_text(value) } else { byte_list(value) }))
    } else {
        None
    }
}

/// The key and value of a line, as a sequence of at most one pair
pub open spec fn line_values(line: Seq<u8>) -> Seq<(Seq<char>, Seq<char>)> {
    match line_value(line) {
        Some(pair) => seq![pair],
        None => Seq::empty(),
    }
}

/// The keys and values of all lines of a message, in order
pub open spec fn message_values(message: Seq<u8>) -> Seq<(Seq<char>, Seq<char>)>
    decreases message.len(),
{
    let end = find(message, NEW_LINE);
    if 0 <= end < message.len() {
        line_values(message.take(end)) + message_values(message.skip(end + 1))
    } else {
        line_values(message)
    }
}

/// Decodes the key and value of one line of a telemetry message
pub fn decode_line(line: &[u8]) -> (pair: Option<(String, String)>)
    ensures
        match pair {
            Some((key, value)) => line_value(line@) == Some((key@, value@)),
            None => line_value(line@) is None,
        },
{
    let at: usize = position(line, EQUALS);
    if at < line.len() {
        let key_bytes = slice_subrange(line, 0, at);
        let raw = slice_subrange(line, at + 1, line.len());
        assert(key_bytes@ =~= line@.take(at as int));
        assert(raw@ =~= line@.skip(at + 1));
        let key = lossy_string(key_bytes);
        let value = if key == "TLM3".to_string() {
            tlm3(raw)
        } else {
            list_bytes(raw)
        };
        Some((key, value))
    } else {
        None
    }
}

/// Provides the number of bytes of the lines that follow the header of a
/// telemetry message. The header ends with the length of the whole message,
/// which counts the header itself.
///
/// ## Arguments
/// * header - The header of the message
pub fn message_length(header: &[u8; HEADER_SIZE]) -> (length: usize)
    requires
        be16(header[10], header[11]) >= HEADER_SIZE,
    ensures
        length == be16(header[10], header[11]) - HEADER_SIZE,
        length == lines_length(header[10], header[11]),
{
    let length: usize = header[10] as usize * 256 + header[11] as usize;
    length - HEADER_SIZE
}

/// Decodes a telemetry event from the lines of a telemetry message
///
/// ## Arguments
/// * message - The lines, without the header of the message
pub fn decode_telemetry_event(message: &[u8]) -> (event: TelemetryEvent)
    ensures
        event@ == message_values(message@),
{
    let mut event = TelemetryEvent { values: Vec::new() };
    let mut start: usize = 0;
    assert(message@.skip(0) =~= message@);
    assert(event@ + message_values(message@) =~= message_values(message@));
    loop
        invariant
            start <= message.len(),
            event@ + message_values(message@.skip(start as int)) == message_values(message@),
        decreases message.len() - start,
    {
        let tail = slice_subrange(message, start, message.len());
        assert(tail@ =~= message@.skip(start as int));
        let end: usize = position(tail, NEW_LINE);
        let line = slice_subrange(tail, 0, end);
        assert(line@ =~= tail@.take(end as int));
        let ghost before = event@;
        if let Some(pair) = decode_line(line) {
            let ghost values = event.values@;
            event.values.push(pair);
            assert(event.values@ == values.push(pair));
            assert(event@ =~= before + seq![(pair.0@, pair.1@)]);
        }
        assert(event@ =~= before + line_values(line@));
        if end == tail.len() {
            assert(line@ =~= tail@);
            return event;
        }
        assert(tail@.skip(end + 1) =~= message@.skip(start + end + 1));
        start = start + end + 1;
        assert(event@ + message_values(message@.skip(start as int)) =~= before + message_values(
            tail@,
        ));
    }
}

/// Enciphering twice with the same key gives back the low seven bits of each
/// byte: text below 128 comes back as it was
pub proof fn law_cipher_undoes_itself(input: Seq<u8>, key: Seq<u8>)
    requires
        key.len() > 0,
    ensures
        xor_with(xor_with(input, key), key) == input.map_values(|byte: u8| (byte % 0x80) as u8),
        (forall|i: int| 0 <= i < input.len() ==> input[i] < 0x80) ==> xor_with(
            xor_with(input, key),
            key,
        ) == input,
{
    let twice = xor_with(xor_with(input, key), key);
    assert forall|i: int| 0 <= i < input.len() implies twice[i] == input[i] % 0x80 by {
        let data = input[i];
        let pad = key[i % key.len() as int];
        assert((((data ^ pad) % 0x80) ^ pad) % 0x80 == data % 0x80) by (bit_vector);
    }
    assert(twice =~= input.map_values(|byte: u8| (byte % 0x80) as u8));
    if forall|i: int| 0 <= i < input.len() ==> input[i] < 0x80 {
        assert(twice =~= input);
    }
}

/// The first `byte` of two parts is that of the front part, if it has one
pub proof fn lemma_find_in_parts(front: Seq<u8>, back: Seq<u8>, byte: u8)
    ensures
        find(front + back, byte) == if find(front, byte) < front.len() {
            find(front, byte)
        } else {
            front.len() + find(back, byte)
        },
    decreases front.len(),
{
    let whole = front + back;
    if front.len() == 0 {
        assert(whole =~= back);
    } else if front[0] != byte {
        lemma_find_in_parts(front.drop_first(), back, byte);
        assert(whole.drop_first() =~= front.drop_first() + back);
        lemma_find(front.drop_first(), byte);
    }
}

/// A TLM3 value decodes to the text whose enciphered bytes stand behind its
/// first dash
pub proof fn law_tlm3_round_trip(prefix: Seq<u8>, text: Seq<u8>)
    requires
        !prefix.contains(DASH),
        forall|i: int| 0 <= i < text.len() ==> text[i] < 0x80,
    ensures
        tlm3_text(prefix.push(DASH) + xor_with(text, TLM3_KEY@)) == text.map_values(
            |byte: u8| byte as char,
        ),
{
    let cipher = xor_with(text, TLM3_KEY@);
    let input = prefix.push(DASH) + cipher;
    lemma_find(prefix, DASH);
    assert(find(prefix, DASH) == prefix.len());
    let tail = seq![DASH] + cipher;
    assert(input =~= prefix + tail);
    lemma_find_in_parts(prefix, tail, DASH);
    assert(find(tail, DASH) == 0);
    assert(input.skip(prefix.len() as int + 1) =~= cipher);
    law_cipher_undoes_itself(text, TLM3_KEY@);
}

/// The values of a message are those of its lines in front of a new line and
/// those of the lines behind it
pub proof fn law_values_of_lines(front: Seq<u8>, back: Seq<u8>)
    ensures
        message_values(front.push(NEW_LINE) + back) == message_values(front) + message_values(back),
    decreases front.len(),
{
    let whole = front.push(NEW_LINE) + back;
    let tail = seq![NEW_LINE] + back;
    let end = find(front, NEW_LINE);
    assert(whole =~= front + tail);
    lemma_find_in_parts(front, tail, NEW_LINE);
    lemma_find(front, NEW_LINE);
    if end < front.len() {
        let later = front.skip(end + 1);
        law_values_of_lines(later, back);
        assert(whole.take(end) =~= front.take(end));
        assert(whole.skip(end + 1) =~= later.push(NEW_LINE) + back);
        assert(message_values(whole) =~= message_values(front) + message_values(back));
    } else {
        assert(find(tail, NEW_LINE) == 0);
        assert(whole.take(end) =~= front);
        assert(whole.skip(end + 1) =~= back);
    }
}

/// The bytes of the key of a TLM3 line
pub open spec fn tlm3_key_bytes() -> Seq<u8> {
    seq![0x54u8, 0x4Cu8, 0x4Du8, 0x33u8]
}

/// A line that starts with `TLM3=` is deciphered
pub proof fn law_tlm3_line(value: Seq<u8>)
    ensures
        line_value(tlm3_key_bytes().push(EQUALS) + value) == Some(("TLM3"@, tlm3_text(value))),
{
    let key = tlm3_key_bytes();
    let line = key.push(EQUALS) + value;
    let tail = seq![EQUALS] + value;
    assert(line =~= key + tail);
    lemma_find(key, EQUALS);
    lemma_find_in_parts(key, tail, EQUALS);
    assert(find(tail, EQUALS) == 0);
    assert(line.take(4) =~= key);
    assert(line.skip(5) =~= value);
    reveal_strlit("TLM3");
    is_ascii_chars_encode_utf8("TLM3"@);
    assert(encode_utf8("TLM3"@) =~= key);
    encode_utf8_valid_utf8("TLM3"@);
    encode_utf8_decode_utf8("TLM3"@);
}

/// Each byte of the input is combined with the byte of the repeated key at its
/// place and cut to seven bits, and there is one for each
pub proof fn law_cipher(input: Seq<u8>, key: Seq<u8>, place: int)
    requires
        key.len() > 0,
        0 <= place < input.len(),
    ensures
        xor_with(input, key).len() == input.len(),
        xor_with(input, key)[place] == ((input[place] ^ key[place % key.len() as int]) % 0x80),
        xor_with(input, Seq::empty()).len() == 0,
{
}

/// A TLM3 value is what stands behind its first dash, each byte of it deciphered
/// with the repeated key, and a value without a dash is listed
pub proof fn law_tlm3_value(prefix: Seq<u8>, cipher: Seq<u8>)
    requires
        !prefix.contains(0x2D),
    ensures
        tlm3_text(prefix) == byte_list(prefix),
        ({
            let text = tlm3_text(prefix.push(0x2D) + cipher);
            &&& text.len() == cipher.len()
            &&& forall|i: int|
                0 <= i < cipher.len() ==> #[trigger] text[i] == ((cipher[i] ^ TLM3_KEY@[i % 27])
                    % 0x80) as char
        }),
{
    let input = prefix.push(0x2D) + cipher;
    let tail = seq![0x2Du8] + cipher;
    lemma_find(prefix, DASH);
    assert(input =~= prefix + tail);
    lemma_find_in_parts(prefix, tail, DASH);
    assert(find(tail, DASH) == 0);
    assert(input.skip(prefix.len() as int + 1) =~= cipher);
    assert(TLM3_KEY@.len() == 27);
}

/// A line is a key, an equals sign and a value: the key is the text in front of
/// the first equals sign, and the value what stands behind it, deciphered for the
/// key TLM3 and listed for any other. A line without an equals sign has neither.
pub proof fn law_line_value(front: Seq<u8>, value: Seq<u8>)
    requires
        !front.contains(0x3D),
    ensures
        line_value(front) is None,
        ({
            let pair = line_value(front.push(0x3D) + value);
            &&& pair is Some
            &&& (pair->0).0 == lossy_text(front)
            &&& lossy_text(front) == "TLM3"@ ==> (pair->0).1 == tlm3_text(value)
            &&& lossy_text(front) != "TLM3"@ ==> (pair->0).1 == byte_list(value)
        }),
{
    let line = front.push(0x3D) + value;
    let tail = seq![0x3Du8] + value;
    lemma_find(front, EQUALS);
    assert(line =~= front + tail);
    lemma_find_in_parts(front, tail, EQUALS);
    assert(find(tail, EQUALS) == 0);
    assert(line.take(front.len() as int) =~= front);
    assert(line.skip(front.len() as int + 1) =~= value);
}

/// A key that is UTF-8 comes out as the text that it encodes
pub proof fn law_key_text(key: Seq<char>)
    ensures
        lossy_text(encode_utf8(key)) == key,
{
    encode_utf8_valid_utf8(key);
    encode_utf8_decode_utf8(key);
}

/// A message of one line has the value of that line if it has one, and no other
pub proof fn law_single_line(line: Seq<u8>)
    requires
        !line.contains(0x0A),
    ensures
        line_value(line) is None ==> message_values(line).len() == 0,
        line_value(line) is Some ==> message_values(line) == seq![line_value(line)->0],
{
    lemma_find(line, NEW_LINE);
}

/// The plain value of an event holds its keys and values in order
pub proof fn law_event_values(event: TelemetryEvent, place: int)
    requires
        0 <= place < event.values@.len(),
    ensures
        event@.len() == event.values@.len(),
        event@[place].0 == event.values@[place].0@,
        event@[place].1 == event.values@[place].1@,
{
}

/// The number of bytes that follow a header that ends with the two bytes
pub open spec fn lines_length(high: u8, low: u8) -> int {
    be16(high, low) - HEADER_SIZE
}

/// The big-endian length of a message counts the twelve bytes of its header
pub proof fn law_lines_length(high: u8, low: u8)
    ensures
        lines_length(high, low) + 12 == high * 256 + low,
{
}

} // verus!
