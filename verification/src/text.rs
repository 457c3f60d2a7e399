//! Building text: decimal numbers, byte lists, and bytes that may not be UTF-8

use vstd::prelude::*;
use vstd::utf8::{decode_utf8, valid_utf8};

verus! {

/// `String::push`: appends one character
pub assume_specification[ String::push ](string: &mut String, character: char)
    ensures
        final(string)@ == old(string)@.push(character),
;

/// The text that `String::from_utf8_lossy` gives for bytes
pub uninterp spec fn utf8_lossy(bytes: Seq<u8>) -> Seq<char>;

/// The text of bytes that may not be UTF-8: what they encode if they are, else
/// a text in which what is not UTF-8 is replaced
pub open spec fn lossy_text(bytes: Seq<u8>) -> Seq<char> {
    if valid_utf8(bytes) {
        decode_utf8(bytes)
    } else {
        utf8_lossy(bytes)
    }
}

/// `String::from_utf8_lossy`: bytes that are UTF-8 give the text that they
/// encode; in any others what is not UTF-8 is replaced by U+FFFD
#[verifier::external_body]
pub(crate) fn lossy_string(bytes: &[u8]) -> (text: String)
    ensures
        text@ == utf8_lossy(bytes@),
        valid_utf8(bytes@) ==> text@ == decode_utf8(bytes@),
        !valid_utf8(bytes@) ==> text@.contains('\u{FFFD}'),
{
    String::from_utf8_lossy(bytes).to_string()
}

/// The decimal digit of a number below ten
pub open spec fn digit(value: nat) -> char {
    (('0' as int) + value % 10) as char
}

/// A number in decimal, without leading zeros
pub open spec fn decimal(value: nat) -> Seq<char>
    decreases value,
{
    if value < 10 {
        seq![digit(value)]
    } else {
        decimal(value / 10).push(digit(value))
    }
}

/// The character of a decimal digit
fn digit_char(value: u8) -> (character: char)
    requires
        value < 10,
    ensures
        character == digit(value as nat),
{
    (48 + value) as char
}

/// Appends a number in decimal
pub fn push_decimal(text: &mut String, value: u64)
    ensures
        final(text)@ == old(text)@ + decimal(value as nat),
    decreases value,
{
    let ghost start = text@;
    if value >= 10 {
        push_decimal(text, value / 10);
    }
    text.push(digit_char((value % 10) as u8));
    assert(text@ =~= start + decimal(value as nat));
}

/// Provides the characters of a text
pub fn characters(text: &str) -> (characters: Vec<char>)
    ensures
        characters@ == text@,
{
    let mut characters: Vec<char> = Vec::new();
    for character in iter: text.chars()
        invariant
            characters@ == iter.seq().take(iter.index() as int),
            iter.seq() == text@,
    {
        characters.push(character);
    }
    characters
}

/// Whether a text starts with another one
pub fn starts_with(text: &str, prefix: &str) -> (starts: bool)
    ensures
        starts == prefix@.is_prefix_of(text@),
{
    let length: usize = prefix.unicode_len();
    if text.unicode_len() < length {
        return false;
    }
    let mut i: usize = 0;
    while i < length
        invariant
            i <= length,
            length == prefix@.len(),
            length <= text@.len(),
            prefix@.take(i as int) == text@.take(i as int),
        decreases length - i,
    {
        if prefix.get_char(i) != text.get_char(i) {
            assert(prefix@[i as int] != text@.take(length as int)[i as int]);
            return false;
        }
        i += 1;
        assert(prefix@.take(i as int) =~= text@.take(i as int));
    }
    assert(prefix@.take(i as int) =~= prefix@);
    assert(prefix@ =~= text@.take(length as int));
    true
}

/// Whether the last character of a text is `character`
pub fn ends_with(text: &str, character: char) -> (ends: bool)
    ensures
        ends == (text@.len() > 0 && text@.last() == character),
{
    let length: usize = text.unicode_len();
    length > 0 && text.get_char(length - 1) == character
}

/// A text without its first character if that is `character`
pub open spec fn without_first(text: Seq<char>, character: char) -> Seq<char> {
    if text.len() > 0 && text[0] == character {
        text.drop_first()
    } else {
        text
    }
}

/// Provides a text without its first character if that is `character`
pub fn strip_first(text: &str, character: char) -> (rest: &str)
    ensures
        rest@ == without_first(text@, character),
{
    let length: usize = text.unicode_len();
    if length > 0 && text.get_char(0) == character {
        let rest = text.substring_char(1, length);
        assert(rest@ =~= text@.drop_first());
        rest
    } else {
        text
    }
}

/// Whether a character has the Unicode property White_Space
pub open spec fn white_space(character: char) -> bool {
    let code = character as int;
    ||| 0x09 <= code <= 0x0D
    ||| code == 0x20
    ||| code == 0x85
    ||| code == 0xA0
    ||| code == 0x1680
    ||| 0x2000 <= code <= 0x200A
    ||| code == 0x2028
    ||| code == 0x2029
    ||| code == 0x202F
    ||| code == 0x205F
    ||| code == 0x3000
}

/// `char::is_whitespace`: whether a character has the Unicode property
/// White_Space
pub assume_specification[ char::is_whitespace ](character: char) -> (result: bool)
    ensures
        result == white_space(character),
;

/// A text without the white space that it starts with
pub open spec fn trimmed_start(text: Seq<char>) -> Seq<char>
    decreases text.len(),
{
    if text.len() > 0 && white_space(text[0]) {
        trimmed_start(text.drop_first())
    } else {
        text
    }
}

/// A text without the white space that it ends with
pub open spec fn trimmed_end(text: Seq<char>) -> Seq<char>
    decreases text.len(),
{
    if text.len() > 0 && white_space(text.last()) {
        trimmed_end(text.drop_last())
    } else {
        text
    }
}

/// A text without the white space that it starts and ends with
pub open spec fn trimmed(text: Seq<char>) -> Seq<char> {
    trimmed_end(trimmed_start(text))
}

/// Removes the white space that a text starts and ends with
pub fn trim(text: &[char]) -> (inner: Vec<char>)
    ensures
        inner@ == trimmed(text@),
{
    let mut start: usize = 0;
    assert(text@.skip(0) =~= text@);
    while start < text.len() && text[start].is_whitespace()
        invariant
            start <= text.len(),
            trimmed_start(text@.skip(start as int)) == trimmed_start(text@),
        decreases text.len() - start,
    {
        assert(text@.skip(start as int).drop_first() =~= text@.skip(start + 1));
        start += 1;
    }
    let ghost tail = text@.skip(start as int);
    assert(trimmed_start(text@) == tail);
    let mut end: usize = text.len();
    assert(tail.take(end - start) =~= tail);
    while end > start && text[end - 1].is_whitespace()
        invariant
            start <= end <= text.len(),
            tail == text@.skip(start as int),
            trimmed_end(tail.take(end - start)) == trimmed_end(tail),
        decreases end - start,
    {
        assert(tail.take(end - start).drop_last() =~= tail.take(end - 1 - start));
        end -= 1;
    }
    let mut inner: Vec<char> = Vec::new();
    let mut i: usize = start;
    while i < end
        invariant
            start <= i <= end <= text.len(),
            inner@ == text@.subrange(start as int, i as int),
        decreases end - i,
    {
        inner.push(text[i]);
        i += 1;
        assert(inner@ =~= text@.subrange(start as int, i as int));
    }
    assert(inner@ =~= tail.take(end - start));
    inner
}

/// Removes every `character` from a text
pub fn remove_all(text: &[char], character: char) -> (rest: Vec<char>)
    ensures
        rest@ == text@.filter(|other: char| other != character),
{
    let mut rest: Vec<char> = Vec::new();
    let mut i: usize = 0;
    proof {
        reveal(Seq::filter);
    }
    while i < text.len()
        invariant
            i <= text.len(),
            rest@ == text@.take(i as int).filter(|other: char| other != character),
        decreases text.len() - i,
    {
        proof {
            reveal(Seq::filter);
            assert(text@.take(i + 1).drop_last() =~= text@.take(i as int));
        }
        if text[i] != character {
            rest.push(text[i]);
        }
        i += 1;
    }
    assert(text@.take(i as int) =~= text@);
    rest
}

/// Bytes as a bracketed list of decimal numbers, such as `[1, 20, 255]`
pub open spec fn byte_list(bytes: Seq<u8>) -> Seq<char> {
    seq!['['] + byte_items(bytes) + seq![']']
}

/// Bytes as decimal numbers, with a comma and a space between each two
pub open spec fn byte_items(bytes: Seq<u8>) -> Seq<char>
    decreases bytes.len(),
{
    if bytes.len() == 0 {
        Seq::empty()
    } else if bytes.len() == 1 {
        decimal(bytes[0] as nat)
    } else {
        byte_items(bytes.drop_last()) + seq![',', ' '] + decimal(bytes.last() as nat)
    }
}

/// Writes bytes as a bracketed list of decimal numbers
pub fn list_bytes(bytes: &[u8]) -> (text: String)
    ensures
        text@ == byte_list(bytes@),
{
    let mut text = String::new();
    text.push('[');
    let mut i: usize = 0;
    while i < bytes.len()
        invariant
            i <= bytes.len(),
            text@ == seq!['['] + byte_items(bytes@.take(i as int)),
        decreases bytes.len() - i,
    {
        let ghost before = text@;
        if i > 0 {
            text.push(',');
            text.push(' ');
        }
        push_decimal(&mut text, bytes[i] as u64);
        proof {
            let next = bytes@.take(i + 1);
            assert(next.drop_last() =~= bytes@.take(i as int));
            if i > 0 {
                assert(text@ =~= seq!['['] + byte_items(next));
            } else {
                assert(byte_items(bytes@.take(0)) =~= Seq::empty());
                assert(text@ =~= seq!['['] + byte_items(next));
            }
        }
        i += 1;
    }
    assert(bytes@.take(i as int) =~= bytes@);
    text.push(']');
    assert(text@ =~= byte_list(bytes@));
    text
}

/// Writes bytes below 128 as the ASCII text that they spell
pub fn ascii_string(bytes: &[u8]) -> (text: String)
    requires
        forall|i: int| 0 <= i < bytes@.len() ==> bytes@[i] < 0x80,
    ensures
        text@ == bytes@.map_values(|byte: u8| byte as char),
{
    let mut text = String::new();
    let mut i: usize = 0;
    while i < bytes.len()
        invariant
            i <= bytes.len(),
            forall|j: int| 0 <= j < bytes@.len() ==> bytes@[j] < 0x80,
            text@ == bytes@.take(i as int).map_values(|byte: u8| byte as char),
        decreases bytes.len() - i,
    {
        text.push(bytes[i] as char);
        i += 1;
        assert(text@ =~= bytes@.take(i as int).map_values(|byte: u8| byte as char));
    }
    assert(bytes@.take(i as int) =~= bytes@);
    text
}

/// The number that decimal digits spell
pub open spec fn spelled_number(text: Seq<char>) -> int
    decreases text.len(),
{
    if text.len() == 0 {
        0
    } else {
        spelled_number(text.drop_last()) * 10 + (text.last() as int - '0' as int)
    }
}

/// A number in decimal is made of digits that spell it, and starts with a zero
/// only if it is zero
pub proof fn law_decimal(value: nat)
    ensures
        decimal(value).len() > 0,
        forall|i: int| 0 <= i < decimal(value).len() ==> '0' <= #[trigger] decimal(value)[i] <= '9',
        spelled_number(decimal(value)) == value,
        decimal(value)[0] == '0' <==> value == 0,
        value == 0 ==> decimal(value).len() == 1,
    decreases value,
{
    let text = decimal(value);
    if value < 10 {
        assert(text.drop_last() =~= Seq::empty());
        assert(spelled_number(text.drop_last()) == 0);
    } else {
        law_decimal(value / 10);
        assert(text.drop_last() =~= decimal(value / 10));
        assert(text[0] == decimal(value / 10)[0]);
        assert forall|i: int| 0 <= i < text.len() implies '0' <= #[trigger] text[i] <= '9' by {
            if i < text.len() - 1 {
                assert(text[i] == decimal(value / 10)[i]);
            }
        }
    }
}

/// A list of bytes is in brackets, and each byte behind the first stands in
/// decimal behind a comma and a space
pub proof fn law_byte_list(bytes: Seq<u8>, last: u8)
    ensures
        byte_list(Seq::empty()) == seq!['[', ']'],
        byte_list(seq![last]) == seq!['['] + decimal(last as nat) + seq![']'],
        bytes.len() > 0 ==> byte_list(bytes.push(last)) == byte_list(bytes).drop_last() + seq![
            ',',
            ' ',
        ] + decimal(last as nat) + seq![']'],
{
    assert(byte_list(Seq::empty()) =~= seq!['[', ']']);
    assert(byte_list(seq![last]) =~= seq!['['] + decimal(last as nat) + seq![']']);
    if bytes.len() > 0 {
        let longer = bytes.push(last);
        assert(longer.drop_last() =~= bytes);
        assert(byte_items(longer) == byte_items(bytes) + seq![',', ' '] + decimal(last as nat));
        assert(byte_list(longer) =~= byte_list(bytes).drop_last() + seq![',', ' '] + decimal(
            last as nat,
        ) + seq![']']);
    }
}

/// A character in front of a text is taken off if it is the one, and only then
pub proof fn law_without_first(text: Seq<char>, character: char)
    ensures
        without_first(seq![character] + text, character) == text,
        text.len() == 0 || text[0] != character ==> without_first(text, character) == text,
{
    assert((seq![character] + text).drop_first() =~= text);
}

/// White space in front of a text does not change what is left of it
proof fn lemma_trimmed_start(lead: Seq<char>, text: Seq<char>)
    requires
        forall|i: int| 0 <= i < lead.len() ==> white_space(#[trigger] lead[i]),
    ensures
        trimmed_start(lead + text) == trimmed_start(text),
    decreases lead.len(),
{
    if lead.len() == 0 {
        assert(lead + text =~= text);
    } else {
        let later = lead.drop_first();
        assert forall|i: int| 0 <= i < later.len() implies white_space(#[trigger] later[i]) by {
            assert(later[i] == lead[i + 1]);
        }
        assert(white_space(lead[0]));
        assert((lead + text).drop_first() =~= later + text);
        lemma_trimmed_start(later, text);
    }
}

/// White space behind a text does not change what is left of it
proof fn lemma_trimmed_end(text: Seq<char>, trail: Seq<char>)
    requires
        forall|i: int| 0 <= i < trail.len() ==> white_space(#[trigger] trail[i]),
    ensures
        trimmed_end(text + trail) == trimmed_end(text),
    decreases trail.len(),
{
    if trail.len() == 0 {
        assert(text + trail =~= text);
    } else {
        let shorter = trail.drop_last();
        assert(white_space(trail.last()));
        assert((text + trail).drop_last() =~= text + shorter);
        lemma_trimmed_end(text, shorter);
    }
}

/// Trimming takes off all white space around a text and nothing else
pub proof fn law_trimmed(lead: Seq<char>, inner: Seq<char>, trail: Seq<char>)
    requires
        forall|i: int| 0 <= i < lead.len() ==> white_space(#[trigger] lead[i]),
        forall|i: int| 0 <= i < trail.len() ==> white_space(#[trigger] trail[i]),
        inner.len() > 0 ==> !white_space(inner[0]) && !white_space(inner.last()),
    ensures
        trimmed(lead + inner + trail) == inner,
{
    assert(lead + inner + trail =~= lead + (inner + trail));
    lemma_trimmed_start(lead, inner + trail);
    if inner.len() > 0 {
        assert((inner + trail)[0] == inner[0]);
        lemma_trimmed_end(inner, trail);
    } else {
        assert(inner + trail =~= trail + Seq::<char>::empty());
        lemma_trimmed_start(trail, Seq::empty());
        assert(inner =~= Seq::empty());
    }
}

} // verus!
