//! Building text from bytes and numbers.

use vstd::prelude::*;
use vstd::utf8::{decode_utf8, valid_utf8};

verus! {

/// `String::push` appends one character to the end of the string and leaves
/// the characters before it as they were.
pub assume_specification[ String::push ](text: &mut String, ch: char)
    ensures
        final(text)@ == old(text)@.push(ch),
;

/// The text that bytes stand for: `std::str::from_utf8` accepts exactly the
/// byte sequences that are valid UTF-8, and the text it returns is their
/// decoding. For any other bytes there is no text.
#[verifier::external_body]
pub(crate) fn utf8_text(bytes: &[u8]) -> (r: Option<String>)
    ensures
        r is Some == valid_utf8(bytes@),
        r is Some ==> r->Some_0@ == decode_utf8(bytes@),
{
    match std::str::from_utf8(bytes) {
        Ok(s) => Some(s.to_string()),
        Err(_) => None,
    }
}

/// The text of bytes that are valid UTF-8, and the empty text for others.
pub open spec fn text_of(bytes: Seq<u8>) -> Seq<char> {
    if valid_utf8(bytes) {
        decode_utf8(bytes)
    } else {
        Seq::empty()
    }
}

/// Each byte read as the character with its code.
pub open spec fn latin_text(bytes: Seq<u8>) -> Seq<char> {
    bytes.map_values(|b: u8| b as char)
}

/// The character of a decimal digit.
pub open spec fn digit_char(d: nat) -> char {
    ((0x30 + d) as u8) as char
}

/// A number in decimal notation, without leading zeros.
pub open spec fn decimal_digits(n: nat) -> Seq<char>
    decreases n,
{
    if n < 10 {
        seq![digit_char(n)]
    } else {
        decimal_digits(n / 10).push(digit_char(n % 10))
    }
}

/// Append a number in decimal notation.
pub fn push_decimal(text: &mut String, n: u64)
    ensures
        final(text)@ == old(text)@ + decimal_digits(n as nat),
    decreases n,
{
    if n >= 10 {
        push_decimal(text, n / 10);
    }
    let d: u8 = (n % 10) as u8;
    text.push((0x30 + d) as char);
    assert(text@ =~= old(text)@ + decimal_digits(n as nat));
}

/// Append bytes, each as the character with its code.
pub fn push_latin(text: &mut String, bytes: &[u8], from: usize, to: usize)
    requires
        from <= to <= bytes@.len(),
    ensures
        final(text)@ == old(text)@ + latin_text(bytes@.subrange(from as int, to as int)),
{
    let mut i: usize = from;
    assert(text@ =~= old(text)@ + latin_text(bytes@.subrange(from as int, i as int)));
    while i < to
        invariant
            from <= i <= to <= bytes@.len(),
            text@ == old(text)@ + latin_text(bytes@.subrange(from as int, i as int)),
        decreases to - i,
    {
        text.push(bytes[i] as char);
        i = i + 1;
        assert(text@ =~= old(text)@ + latin_text(bytes@.subrange(from as int, i as int)));
    }
}


/// The texts of a list of strings.
pub open spec fn lines(list: Seq<String>) -> Seq<Seq<char>> {
    list.map_values(|s: String| s@)
}

/// Append a string to a list.
pub fn push_line(list: &mut Vec<String>, line: String)
    ensures
        lines(final(list)@) == lines(old(list)@).push(line@),
{
    list.push(line);
    assert(lines(list@) =~= lines(old(list)@).push(line@));
}

} // verus!
