//! Keyed signatures and the fixed-time comparison used to check them.

use hmac::Mac;
use vstd::prelude::*;

verus! {

/// The 64-byte HMAC-SHA512 tag of `msg` under `key`.
pub uninterp spec fn hmac_sha512_of(key: Seq<u8>, msg: Seq<u8>) -> Seq<u8>;

/// Relies on `hmac::Hmac::<sha2::Sha512>`: `new_from_slice` accepts a key of
/// any length (long keys are hashed first), and `finalize` yields the tag,
/// 64 bytes that depend on the key and the message alone.
#[verifier::external_body]
pub(crate) fn hmac_sha512(key: &[u8], msg: &[u8]) -> (r: Option<Vec<u8>>)
    ensures
        r is Some,
        r matches Some(tag) ==> tag@ == hmac_sha512_of(key@, msg@) && tag@.len() == 64,
{
    match hmac::Hmac::<sha2::Sha512>::new_from_slice(key) {
        Ok(mut h) => {
            h.update(msg);
            Some(h.finalize().into_bytes().to_vec())
        },
        Err(_) => None,
    }
}

/// Compares two byte strings in time that depends on their lengths only:
/// every byte pair is visited and differences are folded with `|`, so the
/// position of the first difference does not show in the running time.
pub fn constant_time_eq(a: &[u8], b: &[u8]) -> (r: bool)
    ensures
        r == (a@ == b@),
{
    if a.len() != b.len() {
        return false;
    }
    let mut diff: u8 = 0;
    let mut i: usize = 0;
    while i < a.len()
        invariant
            a@.len() == b@.len(),
            0 <= i <= a@.len(),
            (diff == 0) == (a@.subrange(0, i as int) =~= b@.subrange(0, i as int)),
        decreases a@.len() - i,
    {
        let x = a[i];
        let y = b[i];
        let d = diff | (x ^ y);
        assert((d == 0) == (diff == 0 && x == y)) by (bit_vector)
            requires
                d == diff | (x ^ y),
        ;
        proof {
            let ai = a@.subrange(0, i as int);
            let bi = b@.subrange(0, i as int);
            assert(a@.subrange(0, i + 1) == ai.push(x));
            assert(b@.subrange(0, i + 1) == bi.push(y));
            if ai.push(x) =~= bi.push(y) {
                assert(ai =~= ai.push(x).drop_last());
                assert(bi =~= bi.push(y).drop_last());
                assert(ai.push(x)[i as int] == x);
            }
        }
        diff = d;
        i = i + 1;
    }
    assert(a@.subrange(0, a@.len() as int) =~= a@);
    assert(b@.subrange(0, b@.len() as int) =~= b@);
    diff == 0
}

} // verus!
