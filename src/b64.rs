//! Base64url without padding (RFC 4648, section 5).

use base64::engine::{general_purpose, Engine};
use vstd::prelude::*;
use vstd::utf8::{decode_utf8, valid_utf8};

use crate::text::string_from_utf8;

verus! {

pub type Result<T> = core::result::Result<T, Error>;

#[derive(Debug, PartialEq, Eq, Structural)]
pub enum Error {
    FailToB64uDecode,
}

/// The character of the URL-safe alphabet for a six-bit value.
pub open spec fn b64u_char(v: int) -> char {
    if v < 26 {
        ((v + 65) as u8) as char
    } else if v < 52 {
        ((v - 26 + 97) as u8) as char
    } else if v < 62 {
        ((v - 52 + 48) as u8) as char
    } else if v == 62 {
        '-'
    } else {
        '_'
    }
}

/// Base64url of `b`, without padding: each group of three bytes gives four
/// characters; a final group of one or two bytes gives two or three.
pub open spec fn b64u_of(b: Seq<u8>) -> Seq<char>
    decreases b.len(),
{
    if b.len() == 0 {
        seq![]
    } else {
        let x = b[0] as int;
        let y = if b.len() > 1 { b[1] as int } else { 0 };
        let z = if b.len() > 2 { b[2] as int } else { 0 };
        if b.len() == 1 {
            seq![b64u_char(x / 4), b64u_char((x % 4) * 16)]
        } else if b.len() == 2 {
            seq![b64u_char(x / 4), b64u_char((x % 4) * 16 + y / 16), b64u_char((y % 16) * 4)]
        } else {
            seq![
                b64u_char(x / 4),
                b64u_char((x % 4) * 16 + y / 16),
                b64u_char((y % 16) * 4 + z / 64),
                b64u_char(z % 64),
            ] + b64u_of(b.subrange(3, b.len() as int))
        }
    }
}

/// No character of base64url is a dot, and the text is empty only for no bytes.
pub proof fn lemma_b64u_shape(b: Seq<u8>)
    ensures
        forall|i: int| 0 <= i < b64u_of(b).len() ==> b64u_of(b)[i] != '.',
        b64u_of(b).len() == 0 <==> b.len() == 0,
    decreases b.len(),
{
    if b.len() >= 3 {
        lemma_b64u_shape(b.subrange(3, b.len() as int));
    }
}

/// The character of each six-bit value is its own.
proof fn lemma_b64u_char_injective(v: int, w: int)
    requires
        0 <= v < 64,
        0 <= w < 64,
        b64u_char(v) == b64u_char(w),
    ensures
        v == w,
{
}

/// Base64url encodes distinct byte strings as distinct texts.
pub proof fn lemma_b64u_injective(a: Seq<u8>, b: Seq<u8>)
    requires
        b64u_of(a) == b64u_of(b),
    ensures
        a == b,
    decreases a.len(),
{
    lemma_b64u_len(a);
    lemma_b64u_len(b);
    if a.len() > 0 && b.len() > 0 {
        let ea = b64u_of(a);
        let eb = b64u_of(b);
        let (x, y, z) = (a[0] as int, if a.len() > 1 { a[1] as int } else { 0 }, if a.len() > 2 { a[2] as int } else { 0 });
        let (u, v, w) = (b[0] as int, if b.len() > 1 { b[1] as int } else { 0 }, if b.len() > 2 { b[2] as int } else { 0 });
        assert(ea[0] == eb[0]);
        assert(ea[1] == eb[1]);
        lemma_b64u_char_injective(x / 4, u / 4);
        if a.len() == 1 {
            lemma_b64u_char_injective((x % 4) * 16, (u % 4) * 16);
            assert(a =~= b);
        } else if a.len() == 2 {
            assert(ea[2] == eb[2]);
            lemma_b64u_char_injective((x % 4) * 16 + y / 16, (u % 4) * 16 + v / 16);
            lemma_b64u_char_injective((y % 16) * 4, (v % 16) * 4);
            assert(a =~= b);
        } else {
            assert(ea[2] == eb[2]);
            assert(ea[3] == eb[3]);
            lemma_b64u_char_injective((x % 4) * 16 + y / 16, (u % 4) * 16 + v / 16);
            lemma_b64u_char_injective((y % 16) * 4 + z / 64, (v % 16) * 4 + w / 64);
            lemma_b64u_char_injective(z % 64, w % 64);
            let ra = a.subrange(3, a.len() as int);
            let rb = b.subrange(3, b.len() as int);
            assert(b64u_of(ra) =~= ea.subrange(4, ea.len() as int));
            assert(b64u_of(rb) =~= eb.subrange(4, eb.len() as int));
            lemma_b64u_injective(ra, rb);
            assert(x == u && y == v && z == w);
            assert(a.len() == b.len()) by {
                assert(a.len() == ra.len() + 3);
                assert(b.len() == rb.len() + 3);
            }
            assert forall|i: int| 0 <= i < a.len() implies a[i] == b[i] by {
                if i >= 3 {
                    assert(a[i] == ra[i - 3]);
                    assert(b[i] == rb[i - 3]);
                }
            }
            assert(a =~= b);
        }
    }
}

/// The length of base64url text: four characters for each whole group of
/// three bytes, and two or three for a last group of one or two.
pub proof fn lemma_b64u_len(b: Seq<u8>)
    ensures
        b64u_of(b).len() == 4 * (b.len() / 3) + (if b.len() % 3 == 0 {
            0int
        } else {
            b.len() as int % 3 + 1
        }),
    decreases b.len(),
{
    if b.len() >= 3 {
        lemma_b64u_len(b.subrange(3, b.len() as int));
    }
}

/// Relies on `base64`'s `URL_SAFE_NO_PAD` engine, `encode`: the URL-safe
/// alphabet, no padding.
#[verifier::external_body]
pub fn b64u_encode(content: &[u8]) -> (r: String)
    ensures
        r@ == b64u_of(content@),
{
    general_purpose::URL_SAFE_NO_PAD.encode(content)
}

/// Relies on `base64`'s `URL_SAFE_NO_PAD` engine, `decode`: padding and
/// non-zero trailing bits are refused, so a text decodes exactly when it is
/// the encoding of some bytes, and then to those bytes.
#[verifier::external_body]
pub fn b64u_decode(b64u: &str) -> (r: Result<Vec<u8>>)
    ensures
        r is Ok <==> exists|b: Seq<u8>| b64u_of(b) == b64u@,
        r matches Ok(v) ==> forall|b: Seq<u8>| b64u_of(b) == b64u@ ==> v@ == b,
{
    general_purpose::URL_SAFE_NO_PAD.decode(b64u).map_err(|_| Error::FailToB64uDecode)
}

/// The text whose UTF-8 bytes `b64u` encodes.
pub fn b64u_decode_to_string(b64u: &str) -> (r: Result<String>)
    ensures
        r is Ok <==> exists|b: Seq<u8>| b64u_of(b) == b64u@ && valid_utf8(b),
        forall|b: Seq<u8>|
            b64u_of(b) == b64u@ ==> (r matches Ok(s) ==> s@ == decode_utf8(b)),
{
    match b64u_decode(b64u) {
        Ok(v) => {
            let ghost b = v@;
            match string_from_utf8(v) {
                Some(s) => Ok(s),
                None => {
                    proof {
                        assert forall|b2: Seq<u8>| b64u_of(b2) == b64u@ implies !valid_utf8(b2) by {}
                    }
                    Err(Error::FailToB64uDecode)
                },
            }
        },
        Err(e) => Err(e),
    }
}

} // verus!
