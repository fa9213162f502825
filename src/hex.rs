//! Hexadecimal text of bytes.

use vstd::prelude::*;
use vstd::string::*;
use vstd::utf8::*;

use crate::text::string_from_utf8;

verus! {

pub type Result<T> = core::result::Result<T, Error>;

#[derive(Debug, PartialEq, Eq)]
pub enum Error {
    /// An invalid character was found. Valid ones are: `0...9`, `a...f`
    /// or `A...F`.
    InvalidHexCharacter { c: char, index: usize },
    /// A hex string's length needs to be even, as two digits correspond to
    /// one byte.
    OddLength,
    /// The decoded length does not fit a fixed-size container.
    InvalidStringLength,
    /// The decoded bytes are not UTF-8.
    FailToHexDecodeToString,
}

/// The digit for a value below sixteen, in lower or upper case.
pub open spec fn hex_digit(v: int, upper: bool) -> char {
    if v < 10 {
        ((v + 48) as u8) as char
    } else if upper {
        ((v + 55) as u8) as char
    } else {
        ((v + 87) as u8) as char
    }
}

/// Two digits for each byte, the high half first.
pub open spec fn hex_of(b: Seq<u8>, upper: bool) -> Seq<char> {
    Seq::new(
        2 * b.len(),
        |i: int|
            if i % 2 == 0 {
                hex_digit(b[i / 2] as int / 16, upper)
            } else {
                hex_digit(b[i / 2] as int % 16, upper)
            },
    )
}

/// The value of a hex digit byte, in either case.
pub open spec fn hex_value(c: u8) -> Option<int> {
    if 48 <= c <= 57 {
        Some(c - 48)
    } else if 97 <= c <= 102 {
        Some(c - 87)
    } else if 65 <= c <= 70 {
        Some(c - 55)
    } else {
        None
    }
}

/// The bytes that an even run of hex digit bytes denotes.
pub open spec fn hex_bytes(t: Seq<u8>) -> Seq<u8> {
    Seq::new(
        t.len() / 2,
        |k: int| (hex_value(t[2 * k])->Some_0 * 16 + hex_value(t[2 * k + 1])->Some_0) as u8,
    )
}

fn digit(v: u8, upper: bool) -> (r: u8)
    requires
        v < 16,
    ensures
        r as char == hex_digit(v as int, upper),
        r < 128,
{
    if v < 10 {
        v + 48
    } else if upper {
        v + 55
    } else {
        v + 87
    }
}

fn hex_encode_case(content: &[u8], upper: bool) -> (r: String)
    ensures
        r@ == hex_of(content@, upper),
{
    let ghost h = hex_of(content@, upper);
    let mut out: Vec<u8> = Vec::new();
    let mut i: usize = 0;
    while i < content.len()
        invariant
            0 <= i <= content@.len(),
            h == hex_of(content@, upper),
            out@.len() == 2 * i,
            forall|k: int| 0 <= k < 2 * i ==> #[trigger] out@[k] as char == h[k] && out@[k] < 128,
        decreases content@.len() - i,
    {
        let b = content[i];
        out.push(digit(b / 16, upper));
        out.push(digit(b % 16, upper));
        i = i + 1;
    }
    proof {
        assert(is_ascii_chars(h));
        is_ascii_chars_encode_utf8(h);
        assert(out@ =~= encode_utf8(h));
        encode_utf8_valid_utf8(h);
        encode_utf8_decode_utf8(h);
    }
    match string_from_utf8(out) {
        Some(s) => s,
        None => String::new(),
    }
}

/// Lower-case hex text of `content`.
pub fn hex_encode(content: &[u8]) -> (r: String)
    ensures
        r@ == hex_of(content@, false),
{
    hex_encode_case(content, false)
}

/// Upper-case hex text of `content`.
pub fn hex_encode_upper(content: &[u8]) -> (r: String)
    ensures
        r@ == hex_of(content@, true),
{
    hex_encode_case(content, true)
}

fn value(c: u8) -> (r: Option<u8>)
    ensures
        match hex_value(c) {
            Some(v) => r == Some(v as u8) && v < 16,
            None => r is None,
        },
{
    if 48 <= c && c <= 57 {
        Some(c - 48)
    } else if 97 <= c && c <= 102 {
        Some(c - 87)
    } else if 65 <= c && c <= 70 {
        Some(c - 55)
    } else {
        None
    }
}

/// Bytes from hex text (either case). Odd length is refused first; then the
/// first byte of the text that is no hex digit is reported with its index.
pub fn hex_decode(content: &str) -> (r: Result<Vec<u8>>)
    ensures
        ({
            let t = encode_utf8(content@);
            match r {
                Ok(v) => t.len() % 2 == 0 && (forall|i: int| 0 <= i < t.len() ==> #[trigger] hex_value(t[i]) is Some)
                    && v@ == hex_bytes(t),
                Err(Error::OddLength) => t.len() % 2 == 1,
                Err(Error::InvalidHexCharacter { c, index }) => t.len() % 2 == 0 && index < t.len()
                    && hex_value(t[index as int]) is None && c == t[index as int] as char && forall|i: int|
                    0 <= i < index ==> #[trigger] hex_value(t[i]) is Some,
                Err(_) => false,
            }
        }),
{
    let t = content.as_bytes();
    if t.len() % 2 != 0 {
        return Err(Error::OddLength);
    }
    let mut out: Vec<u8> = Vec::new();
    let mut k: usize = 0;
    while k < t.len() / 2
        invariant
            t@ == encode_utf8(content@),
            t@.len() % 2 == 0,
            0 <= k <= t@.len() / 2,
            forall|i: int| 0 <= i < 2 * k ==> #[trigger] hex_value(t@[i]) is Some,
            out@.len() == k,
            forall|j: int| 0 <= j < k ==> #[trigger] out@[j] == hex_bytes(t@)[j],
        decreases t@.len() / 2 - k,
    {
        let hi = match value(t[2 * k]) {
            Some(v) => v,
            None => return Err(Error::InvalidHexCharacter { c: t[2 * k] as char, index: 2 * k }),
        };
        let lo = match value(t[2 * k + 1]) {
            Some(v) => v,
            None => return Err(Error::InvalidHexCharacter { c: t[2 * k + 1] as char, index: 2 * k + 1 }),
        };
        out.push(hi * 16 + lo);
        k = k + 1;
    }
    assert(out@ =~= hex_bytes(t@));
    Ok(out)
}

/// The UTF-8 text whose bytes hex text denotes; malformed hex gives the
/// error that `hex_decode` gives.
pub fn hex_decode_to_string(content: &str) -> (r: Result<String>)
    ensures
        ({
            let t = encode_utf8(content@);
            let ok = t.len() % 2 == 0 && forall|i: int| 0 <= i < t.len() ==> #[trigger] hex_value(t[i]) is Some;
            match r {
                Ok(s) => ok && valid_utf8(hex_bytes(t)) && s@ == decode_utf8(hex_bytes(t)),
                Err(Error::FailToHexDecodeToString) => ok && !valid_utf8(hex_bytes(t)),
                Err(Error::OddLength) => t.len() % 2 == 1,
                Err(Error::InvalidHexCharacter { c, index }) => t.len() % 2 == 0 && index < t.len()
                    && hex_value(t[index as int]) is None && c == t[index as int] as char && forall|i: int|
                    0 <= i < index ==> #[trigger] hex_value(t[i]) is Some,
                Err(_) => false,
            }
        }),
{
    let bytes = hex_decode(content)?;
    match string_from_utf8(bytes) {
        Some(s) => Ok(s),
        None => Err(Error::FailToHexDecodeToString),
    }
}

} // verus!
