//! Hexadecimal encoding and decoding of byte sequences, as the wire format
//! of signed transactions.
//!
//! Encoding is lowercase without a prefix; decoding accepts upper and lower
//! case and an optional "0x" or "0X" prefix, and requires an even number of
//! characters in the whole text, prefix included.
use vstd::prelude::*;
use crate::errors::HexDecodeError;
use crate::chars::push_char;

verus! {

/// The value of a hexadecimal digit character, or 16 for any other
/// character.
pub open spec fn hex_digit_val(c: char) -> nat {
    if c == '0' {
        0
    } else if c == '1' {
        1
    } else if c == '2' {
        2
    } else if c == '3' {
        3
    } else if c == '4' {
        4
    } else if c == '5' {
        5
    } else if c == '6' {
        6
    } else if c == '7' {
        7
    } else if c == '8' {
        8
    } else if c == '9' {
        9
    } else if c == 'a' || c == 'A' {
        10
    } else if c == 'b' || c == 'B' {
        11
    } else if c == 'c' || c == 'C' {
        12
    } else if c == 'd' || c == 'D' {
        13
    } else if c == 'e' || c == 'E' {
        14
    } else if c == 'f' || c == 'F' {
        15
    } else {
        16
    }
}

pub open spec fn is_hex_digit(c: char) -> bool {
    hex_digit_val(c) < 16
}

/// The lowercase character of a value below sixteen.
pub open spec fn hex_char(d: u8) -> char {
    if d == 0 {
        '0'
    } else if d == 1 {
        '1'
    } else if d == 2 {
        '2'
    } else if d == 3 {
        '3'
    } else if d == 4 {
        '4'
    } else if d == 5 {
        '5'
    } else if d == 6 {
        '6'
    } else if d == 7 {
        '7'
    } else if d == 8 {
        '8'
    } else if d == 9 {
        '9'
    } else if d == 10 {
        'a'
    } else if d == 11 {
        'b'
    } else if d == 12 {
        'c'
    } else if d == 13 {
        'd'
    } else if d == 14 {
        'e'
    } else {
        'f'
    }
}

/// The lowercase hexadecimal text of a byte sequence: two characters per
/// byte, high half first.
pub open spec fn hex_of(bytes: Seq<u8>) -> Seq<char> {
    Seq::new(
        2 * bytes.len(),
        |i: int|
            if i % 2 == 0 {
                hex_char(bytes[i / 2] / 16)
            } else {
                hex_char(bytes[i / 2] % 16)
            },
    )
}

/// The text behind an optional "0x" or "0X" prefix.
pub open spec fn hex_body(s: Seq<char>) -> Seq<char> {
    if s.len() >= 2 && s[0] == '0' && (s[1] == 'x' || s[1] == 'X') {
        s.skip(2)
    } else {
        s
    }
}

/// Decodable hexadecimal text: an even number of characters in all, and
/// nothing but hexadecimal digits behind the optional prefix.
pub open spec fn valid_hex_text(s: Seq<char>) -> bool {
    s.len() % 2 == 0 && (forall|i: int| 0 <= i < hex_body(s).len() ==> is_hex_digit(hex_body(s)[i]))
}

/// The bytes denoted by an even run of hexadecimal digit characters.
pub open spec fn bytes_of_hex(body: Seq<char>) -> Seq<u8> {
    Seq::new(
        (body.len() / 2) as nat,
        |i: int| (hex_digit_val(body[2 * i]) * 16 + hex_digit_val(body[2 * i + 1])) as u8,
    )
}

/// The value of a hexadecimal digit character, with 16 for any other
/// character.
fn hex_val_of_char(c: char) -> (d: u8)
    ensures
        d as nat == hex_digit_val(c),
{
    match c {
        '0' => 0,
        '1' => 1,
        '2' => 2,
        '3' => 3,
        '4' => 4,
        '5' => 5,
        '6' => 6,
        '7' => 7,
        '8' => 8,
        '9' => 9,
        'a' | 'A' => 10,
        'b' | 'B' => 11,
        'c' | 'C' => 12,
        'd' | 'D' => 13,
        'e' | 'E' => 14,
        'f' | 'F' => 15,
        _ => 16,
    }
}

/// The lowercase character of a value below sixteen.
fn hex_char_of(d: u8) -> (c: char)
    requires
        d < 16,
    ensures
        c == hex_char(d),
{
    match d {
        0 => '0',
        1 => '1',
        2 => '2',
        3 => '3',
        4 => '4',
        5 => '5',
        6 => '6',
        7 => '7',
        8 => '8',
        9 => '9',
        10 => 'a',
        11 => 'b',
        12 => 'c',
        13 => 'd',
        14 => 'e',
        _ => 'f',
    }
}

/// Encodes bytes as lowercase hexadecimal text without a prefix.
#[verifier::loop_isolation(false)]
pub fn encode_hex(bytes: &Vec<u8>) -> (r: String)
    ensures
        r@ == hex_of(bytes@),
{
    let mut s = String::new();
    let mut i: usize = 0;
    while i < bytes.len()
        invariant
            i <= bytes@.len(),
            s@.len() == 2 * i,
            forall|k: int| 0 <= k < s@.len() ==> s@[k] == hex_of(bytes@)[k],
        decreases bytes@.len() - i,
    {
        let b = bytes[i];
        push_char(&mut s, hex_char_of(b / 16));
        push_char(&mut s, hex_char_of(b % 16));
        i += 1;
    }
    proof {
        assert(s@ =~= hex_of(bytes@));
    }
    s
}

/// Decodes hexadecimal text, with an optional "0x" or "0X" prefix, into
/// bytes. A text with an odd number of characters is rejected before its
/// characters are examined.
#[verifier::loop_isolation(false)]
pub fn decode_hex(text: &str) -> (r: Result<Vec<u8>, HexDecodeError>)
    ensures
        r is Ok <==> valid_hex_text(text@),
        r matches Ok(v) ==> v@ == bytes_of_hex(hex_body(text@)),
        r matches Err(e) ==> ((e is OddLength) <==> text@.len() % 2 != 0),
        r matches Err(e) ==> ((e is InvalidCharacter) <==> (text@.len() % 2 == 0
            && !valid_hex_text(text@))),
{
    let n = text.unicode_len();
    if n % 2 != 0 {
        return Err(HexDecodeError::OddLength);
    }
    let start: usize = if n >= 2 && text.get_char(0) == '0' && {
        let c1 = text.get_char(1);
        c1 == 'x' || c1 == 'X'
    } {
        2
    } else {
        0
    };
    let ghost body = hex_body(text@);
    proof {
        assert(body =~= text@.skip(start as int));
    }
    let mut out: Vec<u8> = Vec::new();
    let mut i: usize = start;
    while i < n
        invariant
            start <= i <= n,
            (i - start) % 2 == 0,
            out@.len() == (i - start) / 2,
            forall|k: int| 0 <= k < (i - start) ==> is_hex_digit(body[k]),
            forall|k: int| 0 <= k < out@.len() ==> out@[k] == bytes_of_hex(body)[k],
        decreases n - i,
    {
        let hi = hex_val_of_char(text.get_char(i));
        let lo = hex_val_of_char(text.get_char(i + 1));
        if hi >= 16 || lo >= 16 {
            proof {
                if hi >= 16 {
                    assert(!is_hex_digit(body[i - start as int]));
                } else {
                    assert(!is_hex_digit(body[i + 1 - start as int]));
                }
            }
            return Err(HexDecodeError::InvalidCharacter);
        }
        out.push(hi * 16 + lo);
        i += 2;
    }
    proof {
        assert(out@ =~= bytes_of_hex(body));
    }
    Ok(out)
}

} // verus!
