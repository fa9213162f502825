//! Base58 text of bytes (the Bitcoin alphabet).

use base58::{FromBase58, ToBase58};
use vstd::prelude::*;
use vstd::utf8::{decode_utf8, valid_utf8};

use crate::text::string_from_utf8;

verus! {

pub type Result<T> = core::result::Result<T, Error>;

#[derive(Debug, PartialEq, Eq)]
pub enum Error {
    FailToB58uDecode,
}

/// The base58 digit of a value below 58.
pub open spec fn b58_digit(v: int) -> char {
    if v < 9 {
        ((v + 49) as u8) as char
    } else if v < 17 {
        ((v - 9 + 65) as u8) as char
    } else if v < 22 {
        ((v - 17 + 74) as u8) as char
    } else if v < 33 {
        ((v - 22 + 80) as u8) as char
    } else if v < 44 {
        ((v - 33 + 97) as u8) as char
    } else {
        ((v - 44 + 109) as u8) as char
    }
}

/// The number that bytes denote, most significant first.
pub open spec fn be_value(b: Seq<u8>) -> nat
    decreases b.len(),
{
    if b.len() == 0 {
        0
    } else {
        be_value(b.drop_last()) * 256 + b.last() as nat
    }
}

/// The number of zero bytes that `b` starts with.
pub open spec fn zero_prefix(b: Seq<u8>) -> nat
    decreases b.len(),
{
    if b.len() > 0 && b[0] == 0 {
        1 + zero_prefix(b.drop_first())
    } else {
        0
    }
}

/// The base58 digits of a number, most significant first, none for zero.
pub open spec fn b58_digits(n: nat) -> Seq<char>
    decreases n,
{
    if n == 0 {
        seq![]
    } else {
        b58_digits(n / 58).push(b58_digit((n % 58) as int))
    }
}

/// The base58 text of some bytes: a `1` for each leading zero byte, then the
/// digits of the number that the bytes denote.
pub open spec fn b58_of(b: Seq<u8>) -> Seq<char> {
    Seq::new(zero_prefix(b), |i: int| '1') + b58_digits(be_value(b))
}

/// The number of `1`s that a text starts with.
pub open spec fn one_prefix(s: Seq<char>) -> nat
    decreases s.len(),
{
    if s.len() > 0 && s[0] == '1' {
        1 + one_prefix(s.drop_first())
    } else {
        0
    }
}

/// The texts that `base58`'s decoder reads without overrunning its 132-byte
/// buffer: each digit after the leading `1`s adds less than three quarters
/// of a byte, and the leading `1`s and the bytes must fit together.
pub open spec fn b58_decodable_len(s: Seq<char>) -> bool {
    one_prefix(s) + (3 * (s.len() - one_prefix(s)) as int) / 4 + 1 <= 132
}

/// Relies on `base58::ToBase58::to_base58`: a `1` for each leading zero byte,
/// then the base58 digits of the rest, read as a big-endian number.
#[verifier::external_body]
pub fn b58_encode(content: &[u8]) -> (r: String)
    ensures
        r@ == b58_of(content@),
{
    content.to_base58()
}

/// Relies on `base58::FromBase58::from_base58`. On a text that
/// `b58_decodable_len` admits it returns without panicking; it refuses a
/// character outside the alphabet (the number then always fits its buffer),
/// and otherwise returns a zero byte for each leading `1` followed by the
/// shortest big-endian bytes of the number, whose base58 text is the input.
#[verifier::external_body]
fn b58_bytes(b58u: &str) -> (r: Option<Vec<u8>>)
    requires
        b58_decodable_len(b58u@),
    ensures
        r matches Some(v) ==> b58_of(v@) == b58u@ && forall|b: Seq<u8>| #[trigger] b58_of(b) == b58u@ ==> b == v@,
        r is None ==> forall|b: Seq<u8>| #[trigger] b58_of(b) != b58u@,
{
    b58u.from_base58().ok()
}

fn leading_ones(s: &str) -> (r: usize)
    ensures
        r == one_prefix(s@),
        r <= s@.len(),
{
    let n = s.unicode_len();
    let mut k: usize = 0;
    while k < n && s.get_char(k) == '1'
        invariant
            n == s@.len(),
            0 <= k <= n,
            forall|i: int| 0 <= i < k ==> s@[i] == '1',
        decreases n - k,
    {
        k = k + 1;
    }
    proof {
        lemma_one_prefix(s@, k as int);
    }
    k
}

proof fn lemma_one_prefix(s: Seq<char>, k: int)
    requires
        0 <= k <= s.len(),
        forall|i: int| 0 <= i < k ==> s[i] == '1',
        k == s.len() || s[k] != '1',
    ensures
        one_prefix(s) == k,
    decreases k,
{
    if k > 0 {
        let t = s.drop_first();
        assert forall|i: int| 0 <= i < k - 1 implies t[i] == '1' by {
            assert(t[i] == s[i + 1]);
        }
        if k < s.len() {
            assert(t[k - 1] == s[k]);
        }
        lemma_one_prefix(t, k - 1);
    }
}

/// The bytes that a base58 text denotes. Texts longer than the decoder's
/// buffer admits (see `b58_decodable_len`) are refused.
pub fn b58_decode(b58u: &str) -> (r: Result<Vec<u8>>)
    ensures
        !b58_decodable_len(b58u@) ==> r is Err,
        b58_decodable_len(b58u@) ==> (r is Ok <==> exists|b: Seq<u8>| #[trigger] b58_of(b) == b58u@),
        forall|b: Seq<u8>| #[trigger] b58_of(b) == b58u@ && b58_decodable_len(b58u@) ==> (r matches Ok(v) && v@ == b),
        r matches Ok(v) ==> b58_of(v@) == b58u@,
{
    let n = b58u.unicode_len();
    let ones = leading_ones(b58u);
    if ones > 132 || n - ones > 200 || ones + (3 * (n - ones)) / 4 + 1 > 132 {
        return Err(Error::FailToB58uDecode);
    }
    match b58_bytes(b58u) {
        Some(v) => Ok(v),
        None => Err(Error::FailToB58uDecode),
    }
}

/// The UTF-8 text whose bytes a base58 text denotes.
pub fn b58_decode_to_string(b58u: &str) -> (r: Result<String>)
    ensures
        r matches Ok(s) ==> exists|b: Seq<u8>|
            #[trigger] b58_of(b) == b58u@ && valid_utf8(b) && s@ == decode_utf8(b),
        forall|b: Seq<u8>|
            #[trigger] b58_of(b) == b58u@ && b58_decodable_len(b58u@) ==> if valid_utf8(b) {
                r matches Ok(s) && s@ == decode_utf8(b)
            } else {
                r is Err
            },
        !b58_decodable_len(b58u@) ==> r is Err,
{
    let bytes = b58_decode(b58u)?;
    match string_from_utf8(bytes) {
        Some(s) => Ok(s),
        None => Err(Error::FailToB58uDecode),
    }
}

} // verus!
