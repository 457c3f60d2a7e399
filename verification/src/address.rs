//! IPv4 addresses in text form

use vstd::prelude::*;

use crate::text::{decimal, digit};

verus! {

/// An IPv4 address in text form: its four octets in decimal, with dots between
/// them
pub open spec fn ipv4_text(octets: Seq<u8>) -> Seq<char> {
    decimal(octets[0] as nat) + seq!['.'] + decimal(octets[1] as nat) + seq!['.'] + decimal(
        octets[2] as nat,
    ) + seq!['.'] + decimal(octets[3] as nat)
}

/// Whether a character is a decimal digit
pub open spec fn is_digit(character: char) -> bool {
    '0' <= character <= '9'
}

/// The end of the digits that start at a place
pub open spec fn digits_end(text: Seq<char>, start: int) -> int
    decreases text.len() - start,
{
    if start < text.len() && is_digit(text[start]) {
        digits_end(text, start + 1)
    } else {
        start
    }
}

/// What tells an octet in decimal
proof fn lemma_octet_digits(value: u8)
    ensures
        ({
            let text = decimal(value as nat);
            &&& 1 <= text.len() <= 3
            &&& forall|i: int| 0 <= i < text.len() ==> is_digit(#[trigger] text[i])
            &&& text.len() > 1 ==> text[0] != '0'
            &&& value == number(text)
        }),
{
    reveal_with_fuel(decimal, 3);
    reveal_with_fuel(number, 4);
    let text = decimal(value as nat);
    if value >= 100 {
        assert(text =~= seq![
            digit((value / 100) as nat),
            digit((value / 10) as nat),
            digit(value as nat),
        ]);
        assert(text.drop_last() =~= seq![digit((value / 100) as nat), digit((value / 10) as nat)]);
        assert(text.drop_last().drop_last() =~= seq![digit((value / 100) as nat)]);
        assert(text.drop_last().drop_last().drop_last() =~= Seq::empty());
    } else if value >= 10 {
        assert(text =~= seq![digit((value / 10) as nat), digit(value as nat)]);
        assert(text.drop_last() =~= seq![digit((value / 10) as nat)]);
        assert(text.drop_last().drop_last() =~= Seq::empty());
    } else {
        assert(text.drop_last() =~= Seq::empty());
    }
}

/// The number that digits spell
spec fn number(text: Seq<char>) -> int
    decreases text.len(),
{
    if text.len() == 0 {
        0
    } else {
        number(text.drop_last()) * 10 + (text.last() as int - '0' as int)
    }
}

/// Digits without a leading zero are the decimal form of the number they spell
proof fn lemma_decimal_of_digits(text: Seq<char>)
    requires
        1 <= text.len() <= 3,
        forall|i: int| 0 <= i < text.len() ==> is_digit(#[trigger] text[i]),
        text.len() > 1 ==> text[0] != '0',
    ensures
        0 <= number(text) < 1000,
        decimal(number(text) as nat) == text,
{
    reveal_with_fuel(decimal, 3);
    reveal_with_fuel(number, 4);
    let first = text[0] as int - '0' as int;
    assert(is_digit(text[0]));
    assert(is_digit(text.last()));
    if text.len() == 1 {
        assert(text.drop_last() =~= Seq::empty());
        assert(number(text) == first);
        assert(decimal(first as nat) =~= text);
    } else if text.len() == 2 {
        let second = text[1] as int - '0' as int;
        assert(text.drop_last() =~= seq![text[0]]);
        assert(text.drop_last().drop_last() =~= Seq::empty());
        assert(number(text) == first * 10 + second);
        assert(decimal(number(text) as nat) =~= text);
    } else {
        let second = text[1] as int - '0' as int;
        let third = text[2] as int - '0' as int;
        assert(is_digit(text[1]));
        assert(text.drop_last() =~= seq![text[0], text[1]]);
        assert(text.drop_last().drop_last() =~= seq![text[0]]);
        assert(text.drop_last().drop_last().drop_last() =~= Seq::empty());
        assert(number(text) == (first * 10 + second) * 10 + third);
        assert(decimal(number(text) as nat) =~= text);
    }
}

/// The digits in front of something else end there
proof fn lemma_digits_end(text: Seq<char>, start: int, end: int)
    requires
        0 <= start <= end <= text.len(),
        forall|i: int| start <= i < end ==> is_digit(#[trigger] text[i]),
        end < text.len() ==> !is_digit(text[end]),
    ensures
        digits_end(text, start) == end,
    decreases end - start,
{
    if start < end {
        lemma_digits_end(text, start + 1, end);
    }
}

/// Reads the octet whose digits start at a place
///
/// ## Arguments
/// * `text`  - The characters to read
/// * `start` - The place of the first digit
fn read_octet(text: &[char], start: usize) -> (result: Option<(u8, usize)>)
    requires
        start <= text.len(),
    ensures
        ({
            let end = digits_end(text@, start as int);
            &&& start <= end <= text.len()
            &&& match result {
                Some((value, place)) => place == end && text@.subrange(start as int, end)
                    == decimal(value as nat),
                None => forall|value: u8|
                    text@.subrange(start as int, end) != decimal(value as nat),
            }
        }),
{
    let mut end: usize = start;
    let mut value: u16 = 0;
    assert(text@.subrange(start as int, start as int) =~= Seq::empty());
    while end < text.len() && '0' <= text[end] && text[end] <= '9'
        invariant
            start <= end <= text.len(),
            digits_end(text@, end as int) == digits_end(text@, start as int),
            forall|i: int| start <= i < end ==> is_digit(#[trigger] text@[i]),
            value <= 1000,
            value < 1000 ==> value == number(text@.subrange(start as int, end as int)),
            end - start <= 3 ==> value < 1000,
            end - start <= 2 ==> value < 100,
            end - start <= 1 ==> value < 10,
            end == start ==> value == 0,
        decreases text.len() - end,
    {
        proof {
            let read = text@.subrange(start as int, end + 1);
            assert(read.drop_last() =~= text@.subrange(start as int, end as int));
        }
        value = if end - start < 3 {
            value * 10 + (text[end] as u32 - '0' as u32) as u16
        } else {
            1000
        };
        end += 1;
    }
    let ghost digits = text@.subrange(start as int, end as int);
    let length: usize = end - start;
    if length < 1 || length > 3 || (length > 1 && text[start] == '0') || value > 255 {
        proof {
            assert forall|other: u8| digits != decimal(other as nat) by {
                lemma_octet_digits(other);
                if length > 1 && text[start as int] == '0' {
                    assert(digits[0] == '0');
                }
            }
        }
        return None;
    }
    proof {
        assert forall|i: int| 0 <= i < digits.len() implies is_digit(#[trigger] digits[i]) by {
            assert(is_digit(text@[start + i]));
        }
        lemma_decimal_of_digits(digits);
    }
    Some((value as u8, end))
}

/// An octet in front of something that is no digit can be told from what follows
proof fn lemma_octet_in_front(text: Seq<char>, start: int, value: u8, rest: Seq<char>)
    requires
        0 <= start <= text.len(),
        text.skip(start) == decimal(value as nat) + rest,
        rest.len() > 0 ==> !is_digit(rest[0]),
    ensures
        digits_end(text, start) == start + decimal(value as nat).len(),
        text.subrange(start, digits_end(text, start)) == decimal(value as nat),
        text.skip(digits_end(text, start)) == rest,
{
    let digits = decimal(value as nat);
    let end = start + digits.len();
    lemma_octet_digits(value);
    assert(text.skip(start).len() == digits.len() + rest.len());
    assert forall|i: int| start <= i < end implies is_digit(#[trigger] text[i]) by {
        assert(text[i] == text.skip(start)[i - start]);
        assert(is_digit(digits[i - start]));
    }
    if end < text.len() {
        assert(text[end] == text.skip(start)[end - start]);
    }
    lemma_digits_end(text, start, end);
    assert(text.subrange(start, end) =~= text.skip(start).take(end - start));
    assert(text.subrange(start, end) =~= digits);
    assert(text.skip(end) =~= text.skip(start).skip(end - start));
    assert(text.skip(end) =~= rest);
}

/// Octets with the same decimal form are the same
proof fn lemma_octet_unique(first: u8, second: u8)
    requires
        decimal(first as nat) == decimal(second as nat),
    ensures
        first == second,
{
    lemma_octet_digits(first);
    lemma_octet_digits(second);
}

/// Reads the octet at a place and the dot behind it
fn read_part(text: &[char], start: usize) -> (result: Option<(u8, usize)>)
    requires
        start <= text.len(),
    ensures
        match result {
            Some((value, place)) => {
                &&& start <= place <= text.len()
                &&& text@.skip(start as int) == decimal(value as nat) + seq!['.'] + text@.skip(
                    place as int,
                )
                &&& forall|other: u8, rest: Seq<char>|
                    text@.skip(start as int) == #[trigger] (decimal(other as nat) + seq!['.']
                        + rest) ==> other == value && rest == text@.skip(place as int)
            },
            None => forall|other: u8, rest: Seq<char>|
                text@.skip(start as int) != #[trigger] (decimal(other as nat) + seq!['.'] + rest),
        },
{
    let ghost end = digits_end(text@, start as int);
    proof {
        assert forall|other: u8, rest: Seq<char>|
            text@.skip(start as int) == #[trigger] (decimal(other as nat) + seq!['.']
                + rest) implies text@.subrange(start as int, end) == decimal(other as nat)
            && text@.skip(end) == seq!['.'] + rest by {
            assert(decimal(other as nat) + seq!['.'] + rest =~= decimal(other as nat) + (seq!['.']
                + rest));
            lemma_octet_in_front(text@, start as int, other, seq!['.'] + rest);
        }
    }
    match read_octet(text, start) {
        Some((value, place)) => {
            if place < text.len() && text[place] == '.' {
                proof {
                    assert(text@.skip(start as int) =~= decimal(value as nat) + seq!['.']
                        + text@.skip(place + 1));
                    assert forall|other: u8, rest: Seq<char>|
                        text@.skip(start as int) == #[trigger] (decimal(other as nat) + seq!['.']
                            + rest) implies other == value && rest == text@.skip(place + 1) by {
                        lemma_octet_unique(other, value);
                        assert(text@.skip(place + 1) =~= text@.skip(place as int).skip(1));
                        assert((seq!['.'] + rest).skip(1) =~= rest);
                    }
                }
                Some((value, place + 1))
            } else {
                proof {
                    assert forall|other: u8, rest: Seq<char>|
                        text@.skip(start as int) != #[trigger] (decimal(other as nat) + seq!['.']
                            + rest) by {
                        if text@.skip(start as int) == decimal(other as nat) + seq!['.'] + rest {
                            assert(text@.skip(end)[0] == '.');
                        }
                    }
                }
                None
            }
        },
        None => None,
    }
}

/// The text form of an address from the octet at a place on
spec fn text_behind(octets: Seq<u8>, place: int) -> Seq<char>
    decreases octets.len() - place,
{
    if place + 1 >= octets.len() {
        decimal(octets[place] as nat)
    } else {
        decimal(octets[place] as nat) + seq!['.'] + text_behind(octets, place + 1)
    }
}

/// The text form of an address from its first octet on is all of it
proof fn lemma_text_behind(octets: Seq<u8>)
    requires
        octets.len() == 4,
    ensures
        ipv4_text(octets) == text_behind(octets, 0),
{
    reveal_with_fuel(text_behind, 4);
    assert(ipv4_text(octets) =~= text_behind(octets, 0));
}

/// Whether every address that `text` can be goes on behind a place with its
/// octets from the one with the number on
spec fn goes_on(text: Seq<char>, place: int, number: int) -> bool {
    forall|octets: Seq<u8>|
        octets.len() == 4 && text == #[trigger] ipv4_text(octets) ==> text.skip(place)
            == text_behind(octets, number)
}

/// Reads the octet with the number and the dot behind it
fn read_numbered(text: &[char], start: usize, Ghost(number): Ghost<int>) -> (result: Option<
    (u8, usize),
>)
    requires
        start <= text.len(),
        0 <= number < 3,
        goes_on(text@, start as int, number),
    ensures
        match result {
            Some((value, place)) => {
                &&& start <= place <= text.len()
                &&& text@.skip(start as int) == decimal(value as nat) + seq!['.'] + text@.skip(
                    place as int,
                )
                &&& goes_on(text@, place as int, number + 1)
            },
            None => forall|octets: Seq<u8>|
                octets.len() == 4 ==> text@ != #[trigger] ipv4_text(octets),
        },
{
    let result = read_part(text, start);
    proof {
        assert forall|octets: Seq<u8>|
            octets.len() == 4 && text@ == #[trigger] ipv4_text(octets) implies result is Some
            && text@.skip((result->0).1 as int) == text_behind(octets, number + 1) by {
            assert(text@.skip(start as int) == decimal(octets[number] as nat) + seq!['.']
                + text_behind(octets, number + 1));
        }
    }
    result
}

/// Reads an IPv4 address in text form: four octets in decimal without leading
/// zeros, with dots between them and nothing else
///
/// ## Arguments
/// * `text` - The characters of the text
pub fn parse_ipv4(text: &[char]) -> (octets: Option<[u8; 4]>)
    ensures
        match octets {
            Some(octets) => text@ == ipv4_text(octets@),
            None => forall|octets: Seq<u8>|
                octets.len() == 4 ==> text@ != #[trigger] ipv4_text(octets),
        },
{
    proof {
        assert(text@.skip(0) =~= text@);
        assert forall|octets: Seq<u8>| octets.len() == 4 implies #[trigger] ipv4_text(octets)
            == text_behind(octets, 0) by {
            lemma_text_behind(octets);
        }
    }
    let (first, place) = match read_numbered(text, 0, Ghost(0)) {
        Some(part) => part,
        None => return None,
    };
    let (second, place) = match read_numbered(text, place, Ghost(1)) {
        Some(part) => part,
        None => return None,
    };
    let (third, place) = match read_numbered(text, place, Ghost(2)) {
        Some(part) => part,
        None => return None,
    };
    let ghost digits = text@.subrange(place as int, digits_end(text@, place as int));
    proof {
        assert forall|octets: Seq<u8>|
            octets.len() == 4 && text@ == #[trigger] ipv4_text(octets) implies digits == decimal(
            octets[3] as nat,
        ) && digits_end(text@, place as int) == text.len() by {
            assert(text@.skip(place as int) =~= decimal(octets[3] as nat) + Seq::<char>::empty());
            lemma_octet_in_front(text@, place as int, octets[3], Seq::empty());
        }
    }
    match read_octet(text, place) {
        Some((fourth, end)) => {
            if end != text.len() {
                return None;
            }
            let octets: [u8; 4] = [first, second, third, fourth];
            proof {
                assert(digits =~= text@.skip(place as int));
                assert(text@ =~= ipv4_text(octets@));
            }
            Some(octets)
        },
        None => None,
    }
}

/// Addresses whose text forms are the same from an octet on have the same octets
/// from there on
proof fn lemma_same_text(first: Seq<u8>, second: Seq<u8>, place: int)
    requires
        first.len() == 4,
        second.len() == 4,
        0 <= place < 4,
        text_behind(first, place) == text_behind(second, place),
    ensures
        forall|i: int| place <= i < 4 ==> first[i] == second[i],
    decreases 4 - place,
{
    if place == 3 {
        lemma_octet_unique(first[3], second[3]);
    } else {
        let text = text_behind(first, place);
        let first_rest = seq!['.'] + text_behind(first, place + 1);
        let second_rest = seq!['.'] + text_behind(second, place + 1);
        assert(text.skip(0) =~= decimal(first[place] as nat) + first_rest);
        assert(text.skip(0) =~= decimal(second[place] as nat) + second_rest);
        lemma_octet_in_front(text, 0, first[place], first_rest);
        lemma_octet_in_front(text, 0, second[place], second_rest);
        lemma_octet_unique(first[place], second[place]);
        assert(first_rest.skip(1) =~= text_behind(first, place + 1));
        assert(second_rest.skip(1) =~= text_behind(second, place + 1));
        lemma_same_text(first, second, place + 1);
    }
}

/// Different addresses have different text forms, so that the address that is
/// read from the text form of an address is that address
pub proof fn law_ipv4_text_tells_address(first: Seq<u8>, second: Seq<u8>)
    requires
        first.len() == 4,
        second.len() == 4,
        ipv4_text(first) == ipv4_text(second),
    ensures
        first == second,
{
    lemma_text_behind(first);
    lemma_text_behind(second);
    lemma_same_text(first, second, 0);
    assert(first =~= second);
}

/// Where the octets of an address stand in its text form: in decimal, in order,
/// with a dot between each two
pub proof fn law_ipv4_text(first: u8, second: u8, third: u8, fourth: u8)
    ensures
        ipv4_text(seq![first, second, third, fourth]) == decimal(first as nat).push('.') + decimal(
            second as nat,
        ).push('.') + decimal(third as nat).push('.') + decimal(fourth as nat),
{
    assert(ipv4_text(seq![first, second, third, fourth]) =~= decimal(first as nat).push('.')
        + decimal(second as nat).push('.') + decimal(third as nat).push('.') + decimal(
        fourth as nat,
    ));
}

} // verus!
